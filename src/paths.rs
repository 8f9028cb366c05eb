use vstd::prelude::*;

use crate::process::Platform;
use crate::text::{chars_of, occurs_at_pos, push_char, seq_ends_with};

verus! {

/// The directories the environment names; None where a variable is not set.
#[derive(Debug)]
pub struct EnvDirs {
    pub home: Option<String>,
    pub app_data: Option<String>,
    pub local_app_data: Option<String>,
}

/// Where the target application keeps its files.
#[derive(Debug)]
pub struct AppPaths {
    /// The JSON configuration store.
    pub storage: String,
    /// The credentials file.
    pub auth: String,
    /// The relational store.
    pub db: String,
    pub cursor_exe: String,
    pub cursor_updater: String,
    /// The patch target.
    pub main_js: String,
}

pub open spec fn sep_of(p: Platform) -> char {
    if p == Platform::Windows {
        '\\'
    } else {
        '/'
    }
}

/// `base` and `part` joined by one separator.
pub open spec fn joined(base: Seq<char>, part: Seq<char>, sep: char) -> Seq<char> {
    if base.len() > 0 && base.last() == sep {
        base + part
    } else {
        base.push(sep) + part
    }
}

/// The target's per-user data directory.
pub open spec fn base_dir(p: Platform, env: EnvDirs) -> Option<Seq<char>> {
    let s = sep_of(p);
    match p {
        Platform::Windows => match env.app_data {
            Some(a) => Some(joined(a@, "Cursor"@, s)),
            None => None,
        },
        Platform::MacOs => match env.home {
            Some(h) => Some(joined(joined(joined(h@, "Library"@, s), "Application Support"@, s), "Cursor"@, s)),
            None => None,
        },
        Platform::Linux => match env.home {
            Some(h) => Some(joined(joined(h@, ".config"@, s), "Cursor"@, s)),
            None => None,
        },
        Platform::Other => None,
    }
}

/// The target's executable.
pub open spec fn exe_path(p: Platform, env: EnvDirs) -> Option<Seq<char>> {
    match p {
        Platform::Windows => match env.local_app_data {
            Some(l) => Some(joined(joined(joined(l@, "Programs"@, '\\'), "cursor"@, '\\'), "Cursor.exe"@, '\\')),
            None => None,
        },
        Platform::MacOs => Some("/Applications/Cursor.app/Contents/MacOS/Cursor"@),
        _ => Some("/usr/bin/cursor"@),
    }
}

/// The target's updater directory.
pub open spec fn updater_path(p: Platform, env: EnvDirs) -> Option<Seq<char>> {
    match p {
        Platform::Windows => match env.local_app_data {
            Some(l) => Some(joined(l@, "cursor-updater"@, '\\')),
            None => None,
        },
        Platform::MacOs => match env.home {
            Some(h) => Some(joined(joined(joined(h@, "Library"@, '/'), "Application Support"@, '/'), "cursor-updater"@, '/')),
            None => None,
        },
        _ => match env.home {
            Some(h) => Some(joined(joined(h@, ".config"@, '/'), "cursor-updater"@, '/')),
            None => None,
        },
    }
}

pub open spec fn global_storage(p: Platform, base: Seq<char>) -> Seq<char> {
    joined(joined(base, "User"@, sep_of(p)), "globalStorage"@, sep_of(p))
}

/// `base` and `part` joined by one separator.
fn join(base: &String, part: &str, sep: char) -> (r: String)
    ensures
        r@ == joined(base@, part@, sep),
{
    let mut r = base.clone();
    let n = base.as_str().unicode_len();
    if n == 0 || base.as_str().get_char(n - 1) != sep {
        push_char(&mut r, sep);
    }
    r.append(part);
    r
}

/// The patch target's place below an install directory: `resources/app/out/main.js`.
pub open spec fn main_js_tail(sep: char) -> Seq<char> {
    joined(joined(joined("resources"@, "app"@, sep), "out"@, sep), "main.js"@, sep)
}

/// The path names a `main.js` inside `resources/app/out`.
pub open spec fn is_main_js_location(path: Seq<char>, sep: char) -> bool {
    let t = main_js_tail(sep);
    seq_ends_with(path, t) && (path.len() == t.len() || path[path.len() - t.len() - 1] == sep)
}

fn main_js_tail_exec(sep: char) -> (r: String)
    ensures
        r@ == main_js_tail(sep),
{
    let resources = String::from_str("resources");
    join(&join(&join(&resources, "app", sep), "out", sep), "main.js", sep)
}

/// Where the patch target lies below an install directory.
pub fn main_js_under(dir: &String, sep: char) -> (r: String)
    ensures
        r@ == joined(dir@, main_js_tail(sep), sep),
{
    let tail = main_js_tail_exec(sep);
    join(dir, tail.as_str(), sep)
}

/// Whether a path names a `main.js` inside `resources/app/out`, the shape a directory scan
/// looks for.
pub fn is_main_js_path(path: &str, sep: char) -> (r: bool)
    ensures
        r == is_main_js_location(path@, sep),
{
    let p = chars_of(path);
    let t = chars_of(main_js_tail_exec(sep).as_str());
    if t.len() > p.len() {
        return false;
    }
    let start = p.len() - t.len();
    if !occurs_at_pos(&p, &t, start) {
        return false;
    }
    start == 0 || p[start - 1] == sep
}

fn missing(var: &str) -> (r: String) {
    let mut m = String::from_str(var);
    m.append(" is not set");
    m
}

impl AppPaths {
    /// The target's paths on `platform`, from the environment's directories and the patch
    /// target's location; fails when a directory the platform needs is not set.
    pub fn new(platform: Platform, env: &EnvDirs, main_js: String) -> (r: Result<AppPaths, String>)
        ensures
            (r is Ok) == (base_dir(platform, *env) is Some && (platform == Platform::Windows
                ==> env.local_app_data is Some)),
            r matches Ok(paths) ==> {
                let g = global_storage(platform, base_dir(platform, *env)->0);
                &&& base_dir(platform, *env) is Some
                &&& paths.storage@ == joined(g, "storage.json"@, sep_of(platform))
                &&& paths.auth@ == joined(g, "cursor.auth.json"@, sep_of(platform))
                &&& paths.db@ == joined(g, "state.vscdb"@, sep_of(platform))
                &&& paths.main_js == main_js
                &&& paths.cursor_exe@ == exe_path(platform, *env)->0
                &&& paths.cursor_updater@ == updater_path(platform, *env)->0
            },
    {
        let sep = if platform == Platform::Windows {
            '\\'
        } else {
            '/'
        };
        let base = match platform {
            Platform::Windows => match &env.app_data {
                Some(a) => join(a, "Cursor", sep),
                None => return Err(missing("APPDATA")),
            },
            Platform::MacOs => match &env.home {
                Some(h) => join(&join(&join(h, "Library", sep), "Application Support", sep), "Cursor", sep),
                None => return Err(missing("HOME")),
            },
            Platform::Linux => match &env.home {
                Some(h) => join(&join(h, ".config", sep), "Cursor", sep),
                None => return Err(missing("HOME")),
            },
            Platform::Other => return Err(String::from_str("unsupported operating system")),
        };
        let global = join(&join(&base, "User", sep), "globalStorage", sep);
        let cursor_exe = match platform {
            Platform::Windows => match &env.local_app_data {
                Some(l) => join(&join(&join(l, "Programs", sep), "cursor", sep), "Cursor.exe", sep),
                None => return Err(missing("LOCALAPPDATA")),
            },
            Platform::MacOs => String::from_str("/Applications/Cursor.app/Contents/MacOS/Cursor"),
            _ => String::from_str("/usr/bin/cursor"),
        };
        let cursor_updater = match platform {
            Platform::Windows => match &env.local_app_data {
                Some(l) => join(l, "cursor-updater", sep),
                None => return Err(missing("LOCALAPPDATA")),
            },
            Platform::MacOs => match &env.home {
                Some(h) => join(&join(&join(h, "Library", sep), "Application Support", sep), "cursor-updater", sep),
                None => return Err(missing("HOME")),
            },
            _ => match &env.home {
                Some(h) => join(&join(h, ".config", sep), "cursor-updater", sep),
                None => return Err(missing("HOME")),
            },
        };
        Ok(
            AppPaths {
                storage: join(&global, "storage.json", sep),
                auth: join(&global, "cursor.auth.json", sep),
                db: join(&global, "state.vscdb", sep),
                cursor_exe,
                cursor_updater,
                main_js,
            },
        )
    }

    /// The default install location of the patch target on `platform`.
    pub fn default_main_js(platform: Platform, env: &EnvDirs) -> (r: Option<String>)
        ensures
            platform == Platform::Windows ==> crate::process::opt_view(r) == match env.local_app_data {
                Some(l) => Some(joined(joined(joined(l@, "Programs"@, '\\'), "cursor"@, '\\'), main_js_tail('\\'), '\\')),
                None => None,
            },
            platform == Platform::MacOs ==> crate::process::opt_view(r) == Some(
                "/Applications/Cursor.app/Contents/Resources/app/out/main.js"@,
            ),
            platform != Platform::Windows && platform != Platform::MacOs ==> crate::process::opt_view(r)
                == Some("/usr/lib/cursor/resources/app/out/main.js"@),
    {
        match platform {
            Platform::Windows => match &env.local_app_data {
                Some(l) => {
                    let dir = join(&join(l, "Programs", '\\'), "cursor", '\\');
                    Some(main_js_under(&dir, '\\'))
                },
                None => None,
            },
            Platform::MacOs => Some(String::from_str("/Applications/Cursor.app/Contents/Resources/app/out/main.js")),
            _ => Some(String::from_str("/usr/lib/cursor/resources/app/out/main.js")),
        }
    }
}

} // verus!
