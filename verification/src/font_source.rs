//! Finding a default system font file for a family: a fixed list of
//! directories the host usually keeps fonts in, probed for a well-known
//! file name. Everything the host decides (the home directory, what is on
//! disk) comes through trusted calls that promise nothing; the path
//! arithmetic around them is verified.

use vstd::prelude::*;

use crate::font_types::FontType;

verus! {

pub const DEFAULT_FONT_FAMILY_SERIF: &'static str = "serif";

pub const DEFAULT_FONT_FAMILY_SANS_SERIF: &'static str = "sans-serif";

pub const DEFAULT_FONT_FAMILY_MONOSPACE: &'static str = "monospace";

pub const DEFAULT_FONT_FAMILY_CURSIVE: &'static str = "cursive";

pub const DEFAULT_FONT_FAMILY_FANTASY: &'static str = "fantasy";

/// Relies on `dirs_next::home_dir`: the user's home directory, if the host
/// knows one. The result depends on the environment, so nothing is promised
/// of it.
#[verifier::external_body]
fn home_dir_string() -> Option<String> {
    match dirs_next::home_dir() {
        Some(p) => p.to_str().map(|s: &str| s.to_owned()),
        None => None,
    }
}

/// Relies on `dirs_next::data_dir`: the user's data directory, if the host
/// knows one. The result depends on the environment, so nothing is promised
/// of it.
#[verifier::external_body]
fn data_dir_string() -> Option<String> {
    match dirs_next::data_dir() {
        Some(p) => p.to_str().map(|s: &str| s.to_owned()),
        None => None,
    }
}

/// Relies on `std::path::Path::exists`: whether something exists at the
/// path right now. The result depends on what is on disk, so nothing is
/// promised of it.
#[verifier::external_body]
fn path_exists(path: &str) -> bool {
    std::path::Path::new(path).exists()
}

/// Replacing the file name of a path: everything up to and including the
/// last separator, then the new name; a path without separators is replaced
/// whole.
pub open spec fn with_file_name_view(path: Seq<char>, name: Seq<char>) -> Seq<char> {
    if exists|i: int| 0 <= i < path.len() && path[i] == '/' {
        let last = last_separator(path);
        path.take(last + 1) + name
    } else {
        name
    }
}

/// The index of the last separator of `path`.
pub open spec fn last_separator(path: Seq<char>) -> int {
    choose|i: int|
        0 <= i < path.len() && path[i] == '/' && forall|j: int|
            i < j < path.len() ==> path[j] != '/'
}

/// The last separator is well defined on any path that has one.
proof fn lemma_last_separator(path: Seq<char>, i: int)
    requires
        0 <= i < path.len(),
        path[i] == '/',
    ensures
        ({
            let last = last_separator(path);
            &&& 0 <= last < path.len()
            &&& path[last] == '/'
            &&& forall|j: int| last < j < path.len() ==> path[j] != '/'
            &&& last >= i
        }),
    decreases path.len() - i,
{
    if exists|j: int| i < j < path.len() && path[j] == '/' {
        let j = choose|j: int| i < j < path.len() && path[j] == '/';
        lemma_last_separator(path, j);
    } else {
        assert(0 <= i < path.len() && path[i] == '/' && forall|j: int|
            i < j < path.len() ==> path[j] != '/');
        let last = last_separator(path);
        if last < i {
            assert(path[i] == '/');
        }
    }
}

/// Replaces the final component of `path` with `name`.
pub fn set_file_name(path: &str, name: &str) -> (r: String)
    ensures
        r@ == with_file_name_view(path@, name@),
{
    let n = path.unicode_len();
    let mut sep: usize = 0;
    let mut found = false;
    let mut i: usize = 0;
    while i < n
        invariant
            n == path@.len(),
            i <= n,
            found ==> 0 <= sep < i && path@[sep as int] == '/' && forall|j: int|
                sep < j < i ==> path@[j] != '/',
            !found ==> forall|j: int| 0 <= j < i ==> path@[j] != '/',
        decreases n - i,
    {
        if path.get_char(i) == '/' {
            sep = i;
            found = true;
        }
        i += 1;
    }
    if found {
        proof {
            lemma_last_separator(path@, sep as int);
            assert(last_separator(path@) == sep as int) by {
                let last = last_separator(path@);
                if last > sep {
                    assert(path@[last] != '/');
                }
            }
        }
        let prefix = path.substring_char(0, sep + 1);
        let mut r = prefix.to_owned();
        r.append(name);
        proof {
            assert(r@ =~= with_file_name_view(path@, name@));
        }
        r
    } else {
        proof {
            assert(!(exists|i: int| 0 <= i < path@.len() && path@[i] == '/'));
        }
        name.to_owned()
    }
}

/// The shape every probed directory has: one of the four system-wide
/// directories, or a fixed suffix appended to an environment-derived
/// prefix (the home or data directory).
pub open spec fn probed_dir_shape(d: Seq<char>) -> bool {
    ||| d == "/usr/share/fonts"@
    ||| d == "/usr/local/share/fonts"@
    ||| d == "/var/run/host/usr/share/fonts"@
    ||| d == "/var/run/host/usr/local/share/fonts"@
    ||| exists|prefix: Seq<char>| d == prefix + "/.fonts"@
    ||| exists|prefix: Seq<char>| d == prefix + "/local/share/fonts"@
    ||| exists|prefix: Seq<char>| d == prefix + "/fonts"@
}

/// The directories the host usually keeps fonts in: the four system-wide
/// ones, then up to two derived from the home directory and one from the
/// data directory, when the environment names them.
pub fn default_font_directories() -> (r: Vec<String>)
    ensures
        4 <= r@.len() <= 7,
        r@[0]@ == "/usr/share/fonts"@,
        r@[1]@ == "/usr/local/share/fonts"@,
        r@[2]@ == "/var/run/host/usr/share/fonts"@,
        r@[3]@ == "/var/run/host/usr/local/share/fonts"@,
        forall|i: int| 0 <= i < r@.len() ==> probed_dir_shape(#[trigger] r@[i]@),
        r@.len() == 5 ==> exists|data: Seq<char>| r@[4]@ == data + "/fonts"@,
        r@.len() >= 6 ==> exists|home: Seq<char>|
            r@[4]@ == home + "/.fonts"@ && r@[5]@ == home + "/local/share/fonts"@,
        r@.len() == 7 ==> exists|data: Seq<char>| r@[6]@ == data + "/fonts"@,
    {
    let mut directories: Vec<String> = Vec::new();
    directories.push("/usr/share/fonts".to_owned());
    directories.push("/usr/local/share/fonts".to_owned());
    directories.push("/var/run/host/usr/share/fonts".to_owned());
    directories.push("/var/run/host/usr/local/share/fonts".to_owned());
    match home_dir_string() {
        Some(home) => {
            let mut dot_fonts = home.clone();
            dot_fonts.append("/.fonts");
            directories.push(dot_fonts);
            let mut local_share = home;
            local_share.append("/local/share/fonts");
            directories.push(local_share);
        },
        None => {},
    }
    match data_dir_string() {
        Some(data) => {
            let mut data_fonts = data;
            data_fonts.append("/fonts");
            directories.push(data_fonts);
        },
        None => {},
    }
    directories
}

/// The default file name probed for a family.
pub open spec fn default_font_name_view(family: crate::font_types::FontTypeView) -> Seq<char> {
    match family {
        crate::font_types::FontTypeView::Monospace => "monospace"@,
        crate::font_types::FontTypeView::Proportional => "serif"@,
        crate::font_types::FontTypeView::Name(name) => name,
    }
}

/// Probes the host's font directories for a default font file of the given
/// family: in each directory's parent, a file named after the family. The
/// first path that exists on disk wins; what exists is the host's business,
/// but any returned path ends in the family's default file name.
pub fn get_system_default_font_path(family: FontType) -> (r: Option<String>)
    ensures
        r matches Some(p) ==> {
            let name = default_font_name_view(family@);
            &&& p@.len() >= name.len()
            &&& p@.skip(p@.len() - name.len()) == name
            &&& exists|d: Seq<char>|
                probed_dir_shape(d) && p@ == with_file_name_view(d, name)
        },
{
    let font_directories = default_font_directories();
    let font_name = match &family {
        FontType::Monospace => DEFAULT_FONT_FAMILY_MONOSPACE.to_owned(),
        FontType::Proportional => DEFAULT_FONT_FAMILY_SERIF.to_owned(),
        FontType::Name(name) => name.clone(),
    };
    let n = font_directories.len();
    let mut i: usize = 0;
    while i < n
        invariant
            n == font_directories@.len(),
            i <= n,
            font_name@ == default_font_name_view(family@),
            forall|t: int|
                0 <= t < font_directories@.len() ==> probed_dir_shape(
                    #[trigger] font_directories@[t]@,
                ),
        decreases n - i,
    {
        let font_path = set_file_name(font_directories[i].as_str(), font_name.as_str());
        if path_exists(font_path.as_str()) {
            proof {
                lemma_with_file_name_suffix(font_directories@[i as int]@, font_name@);
                assert(probed_dir_shape(font_directories@[i as int]@) && font_path@
                    == with_file_name_view(font_directories@[i as int]@, font_name@));
            }
            return Some(font_path);
        }
        i += 1;
    }
    None
}

/// Whatever the path was, the replaced file name is a suffix of the result.
proof fn lemma_with_file_name_suffix(path: Seq<char>, name: Seq<char>)
    ensures
        ({
            let out = with_file_name_view(path, name);
            &&& out.len() >= name.len()
            &&& out.skip(out.len() - name.len()) =~= name
        }),
{
    let out = with_file_name_view(path, name);
    if exists|i: int| 0 <= i < path.len() && path[i] == '/' {
        let i = choose|i: int| 0 <= i < path.len() && path[i] == '/';
        lemma_last_separator(path, i);
        assert(out.skip(out.len() - name.len()) =~= name);
    } else {
        assert(out.skip(0) =~= name);
    }
}

} // verus!
