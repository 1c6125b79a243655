//! The journal buffer: rendering a page's blocks as bullet lines, and reading
//! edited text back into one note per bullet.
use vstd::prelude::*;

use crate::text::chars_of;

verus! {

/// Whether `c` is white space in the sense of Unicode's `White_Space` property.
pub open spec fn is_ws(c: char) -> bool {
    let u = c as u32;
    (0x09 <= u <= 0x0D) || u == 0x20 || u == 0x85 || u == 0xA0 || u == 0x1680 || (0x2000 <= u
        <= 0x200A) || u == 0x2028 || u == 0x2029 || u == 0x202F || u == 0x205F || u == 0x3000
}

/// Whether `c` is white space.
pub fn is_white_space(c: char) -> (r: bool)
    ensures
        r == is_ws(c),
{
    let u = c as u32;
    (0x09 <= u && u <= 0x0D) || u == 0x20 || u == 0x85 || u == 0xA0 || u == 0x1680 || (0x2000 <= u
        && u <= 0x200A) || u == 0x2028 || u == 0x2029 || u == 0x202F || u == 0x205F || u == 0x3000
}

/// `s` without its leading white space.
pub open spec fn trim_start_spec(s: Seq<char>) -> Seq<char>
    decreases s.len(),
{
    if s.len() > 0 && is_ws(s[0]) {
        trim_start_spec(s.drop_first())
    } else {
        s
    }
}

/// Whether `s` holds nothing but white space.
pub open spec fn is_blank_spec(s: Seq<char>) -> bool {
    forall|i: int| 0 <= i < s.len() ==> is_ws(#[trigger] s[i])
}

/// Whether `s` begins with `p`.
pub open spec fn starts_with_spec(s: Seq<char>, p: Seq<char>) -> bool {
    p.len() <= s.len() && s.subrange(0, p.len() as int) == p
}

/// Whether a line (already trimmed at its start) opens a bullet: it begins with
/// the custom bullet, with `- ` or with `* `.
pub open spec fn is_bullet_spec(line: Seq<char>, bullet: Seq<char>) -> bool {
    starts_with_spec(line, bullet) || starts_with_spec(line, "- "@) || starts_with_spec(line, "* "@)
}

/// The text of a bullet line after its marker, leading white space removed.
pub open spec fn bullet_content_spec(line: Seq<char>, bullet: Seq<char>) -> Seq<char> {
    if starts_with_spec(line, bullet) {
        trim_start_spec(line.subrange(bullet.len() as int, line.len() as int))
    } else {
        trim_start_spec(line.subrange(2, line.len() as int))
    }
}

/// `s` without its leading white space.
pub fn trim_start(s: &str) -> (r: &str)
    ensures
        r@ == trim_start_spec(s@),
{
    let cs = chars_of(s);
    let mut k: usize = 0;
    proof {
        assert(s@.subrange(0, s@.len() as int) =~= s@);
    }
    while k < cs.len() && is_white_space(cs[k])
        invariant
            cs@ == s@,
            k <= cs@.len(),
            trim_start_spec(s@) == trim_start_spec(s@.subrange(k as int, s@.len() as int)),
        decreases cs@.len() - k,
    {
        proof {
            assert(s@.subrange(k as int, s@.len() as int).drop_first() =~= s@.subrange(
                k + 1,
                s@.len() as int,
            ));
        }
        k = k + 1;
    }
    s.substring_char(k, cs.len())
}

/// Whether `s` holds nothing but white space.
pub fn is_blank(s: &str) -> (r: bool)
    ensures
        r == is_blank_spec(s@),
{
    let cs = chars_of(s);
    let mut i: usize = 0;
    while i < cs.len()
        invariant
            cs@ == s@,
            i <= cs@.len(),
            forall|j: int| 0 <= j < i ==> is_ws(#[trigger] s@[j]),
        decreases cs@.len() - i,
    {
        if !is_white_space(cs[i]) {
            return false;
        }
        i = i + 1;
    }
    true
}

/// Whether `s` begins with `p`.
pub fn starts_with(s: &str, p: &str) -> (r: bool)
    ensures
        r == starts_with_spec(s@, p@),
{
    let x = chars_of(s);
    let y = chars_of(p);
    if y.len() > x.len() {
        return false;
    }
    let mut i: usize = 0;
    while i < y.len()
        invariant
            x@ == s@,
            y@ == p@,
            y@.len() <= x@.len(),
            i <= y@.len(),
            forall|j: int| 0 <= j < i ==> x@[j] == y@[j],
        decreases y@.len() - i,
    {
        if x[i] != y[i] {
            proof {
                assert(s@.subrange(0, p@.len() as int)[i as int] != p@[i as int]);
            }
            return false;
        }
        i = i + 1;
    }
    proof {
        assert(s@.subrange(0, p@.len() as int) =~= p@);
    }
    true
}

/// Whether a line (already trimmed at its start) opens a bullet.
pub fn is_bullet_point(line: &str, custom_bullet: &str) -> (r: bool)
    ensures
        r == is_bullet_spec(line@, custom_bullet@),
{
    starts_with(line, custom_bullet) || starts_with(line, "- ") || starts_with(line, "* ")
}

/// The text of a bullet line after its marker, leading white space removed.
pub fn extract_bullet_content<'a>(line: &'a str, custom_bullet: &str) -> (r: &'a str)
    requires
        is_bullet_spec(line@, custom_bullet@),
    ensures
        r@ == bullet_content_spec(line@, custom_bullet@),
{
    let n = line.unicode_len();
    if starts_with(line, custom_bullet) {
        let m = custom_bullet.unicode_len();
        trim_start(line.substring_char(m, n))
    } else {
        proof {
            reveal_strlit("- ");
            reveal_strlit("* ");
        }
        trim_start(line.substring_char(2, n))
    }
}

/// `l` without one trailing carriage return.
pub open spec fn strip_cr(l: Seq<char>) -> Seq<char> {
    if l.len() > 0 && l.last() == '\r' {
        l.drop_last()
    } else {
        l
    }
}

/// The lines of `s`, given that the current line has begun with `acc`: lines end
/// at `\n` (a `\r` right before it is dropped), and a last line without `\n`
/// counts unless it is empty.
pub open spec fn lines_from(acc: Seq<char>, s: Seq<char>) -> Seq<Seq<char>>
    decreases s.len(),
{
    if s.len() == 0 {
        if acc.len() == 0 {
            Seq::empty()
        } else {
            seq![acc]
        }
    } else if s[0] == '\n' {
        seq![strip_cr(acc)] + lines_from(Seq::empty(), s.drop_first())
    } else {
        lines_from(acc.push(s[0]), s.drop_first())
    }
}

/// The lines of a text.
pub open spec fn lines_spec(s: Seq<char>) -> Seq<Seq<char>> {
    lines_from(Seq::empty(), s)
}

/// While reading a journal: the notes finished so far and the note being read.
pub struct JournalState {
    pub notes: Seq<Seq<char>>,
    pub current: Seq<char>,
}

/// `notes` with `current` added unless it is blank.
pub open spec fn flush(notes: Seq<Seq<char>>, current: Seq<char>) -> Seq<Seq<char>> {
    if is_blank_spec(current) {
        notes
    } else {
        notes.push(current)
    }
}

/// Reads one line: comments (`#` after leading white space) are skipped; a
/// bullet line finishes the current note and starts a new one with its text; any
/// other non-blank line continues the current note on a new line.
pub open spec fn line_step(st: JournalState, line: Seq<char>, bullet: Seq<char>) -> JournalState {
    let t = trim_start_spec(line);
    if t.len() > 0 && t[0] == '#' {
        st
    } else if is_bullet_spec(t, bullet) {
        JournalState { notes: flush(st.notes, st.current), current: bullet_content_spec(t, bullet) }
    } else if t.len() > 0 {
        JournalState {
            notes: st.notes,
            current: if st.current.len() > 0 {
                st.current.push('\n') + line
            } else {
                line
            },
        }
    } else {
        st
    }
}

/// Reads the lines in order.
pub open spec fn read_lines(st: JournalState, lines: Seq<Seq<char>>, bullet: Seq<char>) -> JournalState
    decreases lines.len(),
{
    if lines.len() == 0 {
        st
    } else {
        read_lines(line_step(st, lines[0], bullet), lines.drop_first(), bullet)
    }
}

/// The notes of a journal text: one per bullet, the last one included, blank ones left out.
pub open spec fn parse_journal_spec(content: Seq<char>, bullet: Seq<char>) -> Seq<Seq<char>> {
    let st = read_lines(JournalState { notes: Seq::empty(), current: Seq::empty() }, lines_spec(content), bullet);
    flush(st.notes, st.current)
}

/// The views of a sequence of strings.
pub open spec fn string_views(s: Seq<String>) -> Seq<Seq<char>> {
    s.map_values(|x: String| x@)
}

/// Reads one line into the notes and the current note.
fn read_line(notes: &mut Vec<String>, current: &mut String, line: &str, bullet: &str)
    ensures
        ({
            let st = line_step(JournalState { notes: string_views(old(notes)@), current: old(current)@ }, line@, bullet@);
            string_views(final(notes)@) == st.notes && final(current)@ == st.current
        }),
{
    let trimmed = trim_start(line);
    let ghost st = JournalState { notes: string_views(old(notes)@), current: old(current)@ };
    let ghost t = trimmed@;
    proof {
        reveal_strlit("#");
        reveal_strlit("\n");
        assert("#"@.len() == 1 && "#"@[0] == '#');
        assert("#"@ =~= seq!['#']);
        if t.len() > 0 {
            assert(t.subrange(0, 1) =~= seq![t[0]]);
        }
    }
    if starts_with(trimmed, "#") {
        proof {
            assert(t.subrange(0, 1)[0] == '#');
        }
        return;
    }
    assert(!(t.len() > 0 && t[0] == '#'));
    if is_bullet_point(trimmed, bullet) {
        if !is_blank(current.as_str()) {
            notes.push(current.clone());
            proof {
                assert(string_views(notes@) =~= string_views(old(notes)@).push(old(current)@));
            }
        } else {
            assert(string_views(notes@) == flush(st.notes, st.current));
        }
        *current = extract_bullet_content(trimmed, bullet).to_owned();
    } else if trimmed.unicode_len() > 0 {
        if current.unicode_len() > 0 {
            current.append("\n");
            assert(current@ == old(current)@.push('\n'));
        }
        current.append(line);
        assert(current@ == line_step(st, line@, bullet@).current);
    }
}

/// Reads an edited journal text back into notes, one per bullet, in order.
pub fn parse_journal(content: &str, bullet: &str) -> (r: Vec<String>)
    ensures
        string_views(r@) == parse_journal_spec(content@, bullet@),
{
    let cs = chars_of(content);
    let n = cs.len();
    let mut notes: Vec<String> = Vec::new();
    let mut current = String::new();
    let mut start: usize = 0;
    let mut k: usize = 0;
    let ghost target = read_lines(JournalState { notes: Seq::empty(), current: Seq::empty() }, lines_spec(content@), bullet@);
    proof {
        assert(string_views(notes@) =~= Seq::<Seq<char>>::empty());
        assert(cs@.subrange(0, 0) =~= Seq::<char>::empty());
        assert(cs@.subrange(0, n as int) =~= cs@);
    }
    while k < n
        invariant
            cs@ == content@,
            n == cs@.len(),
            start <= k <= n,
            read_lines(
                JournalState { notes: string_views(notes@), current: current@ },
                lines_from(cs@.subrange(start as int, k as int), cs@.subrange(k as int, n as int)),
                bullet@,
            ) == target,
        decreases n - k,
    {
        let ghost acc = cs@.subrange(start as int, k as int);
        let ghost rest = cs@.subrange(k as int, n as int);
        proof {
            assert(rest.drop_first() =~= cs@.subrange(k + 1, n as int));
            assert(rest[0] == cs@[k as int]);
        }
        if cs[k] == '\n' {
            let end = if k > start && cs[k - 1] == '\r' {
                k - 1
            } else {
                k
            };
            let line = content.substring_char(start, end);
            proof {
                assert(line@ =~= strip_cr(acc));
                let ls = lines_from(acc, rest);
                assert(ls == seq![strip_cr(acc)] + lines_from(Seq::empty(), cs@.subrange(k + 1, n as int)));
                assert(ls[0] == strip_cr(acc));
                assert(ls.drop_first() =~= lines_from(Seq::empty(), cs@.subrange(k + 1, n as int)));
                assert(cs@.subrange(k + 1, k + 1) =~= Seq::<char>::empty());
            }
            read_line(&mut notes, &mut current, line, bullet);
            start = k + 1;
        } else {
            proof {
                assert(acc.push(cs@[k as int]) =~= cs@.subrange(start as int, k + 1));
            }
        }
        k = k + 1;
    }
    let ghost acc = cs@.subrange(start as int, n as int);
    let ghost st = JournalState { notes: string_views(notes@), current: current@ };
    proof {
        assert(cs@.subrange(n as int, n as int) =~= Seq::<char>::empty());
    }
    if start < n {
        let line = content.substring_char(start, n);
        proof {
            assert(line@ =~= acc);
            assert(lines_from(acc, Seq::empty()) == seq![acc]);
            assert(seq![acc][0] == acc);
            assert(seq![acc].drop_first() =~= Seq::<Seq<char>>::empty());
            assert(read_lines(line_step(st, acc, bullet@), seq![acc].drop_first(), bullet@) == line_step(st, acc, bullet@));
            assert(read_lines(st, seq![acc], bullet@) == line_step(st, acc, bullet@));
        }
        read_line(&mut notes, &mut current, line, bullet);
    } else {
        proof {
            assert(acc =~= Seq::<char>::empty());
        }
    }
    assert(string_views(notes@) == target.notes && current@ == target.current);
    if !is_blank(current.as_str()) {
        notes.push(current);
        proof {
            assert(string_views(notes@) =~= flush(target.notes, target.current));
        }
    }
    notes
}

} // verus!
