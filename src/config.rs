//! User settings: the bullet marker of the journal buffer and the editor to open.
use vstd::prelude::*;

verus! {

/// The settings in effect.
#[derive(Debug, Clone)]
pub struct Config {
    pub bullet: String,
    pub editor: String,
}

/// The bullet marker used when the settings name none.
pub fn default_bullet() -> (r: String)
    ensures
        r@ == "-"@,
{
    "-".to_owned()
}

impl Config {
    /// The settings from what the settings file names, the bullet falling back
    /// to `-` and the editor to `fallback_editor`.
    pub fn from_file(bullet: Option<String>, editor: Option<String>, fallback_editor: String) -> (r: Config)
        ensures
            r.bullet@ == match bullet {
                Some(b) => b@,
                None => "-"@,
            },
            r.editor@ == match editor {
                Some(e) => e@,
                None => fallback_editor@,
            },
    {
        let bullet = match bullet {
            Some(b) => b,
            None => default_bullet(),
        };
        let editor = match editor {
            Some(e) => e,
            None => fallback_editor,
        };
        Config { bullet, editor }
    }
}

/// The text written to a new settings file: `bullet = "<bullet>"`, then
/// `editor = "<editor>"`, each followed by the two characters `\` and `n`.
pub open spec fn default_settings_spec(bullet: Seq<char>, editor: Seq<char>) -> Seq<char> {
    "bullet = \""@ + bullet + "\"\\neditor = \""@ + editor + "\"\\n"@
}

/// The text written to a new settings file.
pub fn default_settings_text(bullet: &str, editor: &str) -> (r: String)
    ensures
        r@ == default_settings_spec(bullet@, editor@),
{
    let mut t = "bullet = \"".to_owned();
    t.append(bullet);
    t.append("\"\\neditor = \"");
    t.append(editor);
    t.append("\"\\n");
    t
}

/// `dir` followed by the path component `name`, with one `/` between them
/// unless `dir` is empty or already ends with `/`.
pub open spec fn join_spec(dir: Seq<char>, name: Seq<char>) -> Seq<char> {
    if dir.len() == 0 || dir.last() == '/' {
        dir + name
    } else {
        dir + "/"@ + name
    }
}

/// `dir` followed by the path component `name`.
pub fn join_path(dir: &str, name: &str) -> (r: String)
    ensures
        r@ == join_spec(dir@, name@),
{
    let n = dir.unicode_len();
    let mut r = dir.to_owned();
    if n > 0 && dir.get_char(n - 1) != '/' {
        r.append("/");
    }
    r.append(name);
    r
}

/// `path` with a leading `~/` replaced by the home directory.
pub open spec fn expand_tilde_spec(path: Seq<char>, home: Seq<char>) -> Seq<char> {
    if path.len() >= 2 && path[0] == '~' && path[1] == '/' {
        home + "/"@ + path.subrange(2, path.len() as int)
    } else {
        path
    }
}

/// `path` with a leading `~/` replaced by the home directory.
pub fn expand_tilde(path: &str, home: &str) -> (r: String)
    ensures
        r@ == expand_tilde_spec(path@, home@),
{
    let n = path.unicode_len();
    if n >= 2 && path.get_char(0) == '~' && path.get_char(1) == '/' {
        let mut r = home.to_owned();
        r.append("/");
        r.append(path.substring_char(2, n));
        r
    } else {
        path.to_owned()
    }
}

/// The database file that the settings name: `db_path` where given, else the
/// file `db.sqlite` in `db_dir`, each with `~/` expanded.
pub fn db_path_from_config(db_path: Option<String>, db_dir: Option<String>, home: &str) -> (r: Option<String>)
    ensures
        match db_path {
            Some(p) => r matches Some(x) && x@ == expand_tilde_spec(p@, home@),
            None => match db_dir {
                Some(d) => r matches Some(x) && x@ == join_spec(expand_tilde_spec(d@, home@), "db.sqlite"@),
                None => r is None,
            },
        },
{
    match db_path {
        Some(p) => Some(expand_tilde(p.as_str(), home)),
        None => match db_dir {
            Some(d) => {
                let dir = expand_tilde(d.as_str(), home);
                Some(join_path(dir.as_str(), "db.sqlite"))
            },
            None => None,
        },
    }
}

/// The database file used when nothing names one: `.jottty/db.sqlite` under the home directory.
pub fn default_db_path(home: &str) -> (r: String)
    ensures
        r@ == join_spec(home@ + "/.jottty"@, "db.sqlite"@),
{
    let mut dir = home.to_owned();
    dir.append("/.jottty");
    join_path(dir.as_str(), "db.sqlite")
}

} // verus!
