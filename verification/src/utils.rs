//! File names, extensions and language identifiers of paths, and the
//! conversion of `file://` URIs to paths.

use vstd::prelude::*;

use crate::text::{chars_match, chars_of, string_from_chars};

verus! {

/// The position of the last `/` in `p`, or -1 when there is none.
pub open spec fn last_slash(p: Seq<char>) -> int
    decreases p.len(),
{
    if p.len() == 0 {
        -1
    } else if p.last() == '/' {
        p.len() - 1
    } else {
        last_slash(p.drop_last())
    }
}

/// The last `/` is a `/` within the path, and none follows it.
pub proof fn lemma_last_slash(p: Seq<char>)
    ensures
        -1 <= last_slash(p) < p.len(),
        last_slash(p) >= 0 ==> p[last_slash(p)] == '/',
        forall|j: int| last_slash(p) < j < p.len() ==> p[j] != '/',
    decreases p.len(),
{
    if p.len() > 0 && p.last() != '/' {
        lemma_last_slash(p.drop_last());
        assert forall|j: int| last_slash(p) < j < p.len() implies p[j] != '/' by {
            if j < p.len() - 1 {
                assert(p[j] == p.drop_last()[j]);
            }
        }
    }
}

/// The final component of a path (`Path::file_name`): empty and `.`
/// components are skipped, a final `..` or no component at all gives `None`.
pub open spec fn file_name(p: Seq<char>) -> Option<Seq<char>>
    decreases p.len(),
{
    let k = last_slash(p);
    let seg = p.skip(k + 1);
    if seg.len() == 0 || seg == "."@ {
        if k < 0 {
            None
        } else {
            proof {
                lemma_last_slash(p);
            }
            file_name(p.take(k))
        }
    } else if seg == ".."@ {
        None
    } else {
        Some(seg)
    }
}

/// The position of the last `.` in `s`, or -1 when there is none.
pub open spec fn last_dot(s: Seq<char>) -> int
    decreases s.len(),
{
    if s.len() == 0 {
        -1
    } else if s.last() == '.' {
        s.len() - 1
    } else {
        last_dot(s.drop_last())
    }
}

/// The extension of a file name: what follows its last `.`, unless there is
/// no `.` or the only one starts the name.
pub open spec fn name_extension(name: Seq<char>) -> Option<Seq<char>> {
    let k = last_dot(name);
    if k <= 0 {
        None
    } else {
        Some(name.skip(k + 1))
    }
}

/// The extension of a path (`Path::extension`).
pub open spec fn path_extension(p: Seq<char>) -> Option<Seq<char>> {
    match file_name(p) {
        Some(name) => name_extension(name),
        None => None,
    }
}

/// The LSP language identifier for an extension ("" when there is none).
pub open spec fn language_id_of_extension(ext: Seq<char>) -> Seq<char> {
    if ext == "rs"@ {
        "rust"@
    } else if ext == "go"@ {
        "go"@
    } else if ext == "py"@ {
        "python"@
    } else if ext == "ts"@ {
        "typescript"@
    } else if ext == "tsx"@ {
        "typescriptreact"@
    } else if ext == "js"@ {
        "javascript"@
    } else if ext == "jsx"@ {
        "javascriptreact"@
    } else if ext == "json"@ {
        "json"@
    } else if ext == "toml"@ {
        "toml"@
    } else if ext == "yaml"@ || ext == "yml"@ {
        "yaml"@
    } else if ext == "md"@ {
        "markdown"@
    } else if ext.len() == 0 {
        "plaintext"@
    } else {
        ext
    }
}

/// The LSP language identifier of a path.
pub open spec fn language_id(p: Seq<char>) -> Seq<char> {
    match path_extension(p) {
        Some(ext) => language_id_of_extension(ext),
        None => language_id_of_extension(Seq::empty()),
    }
}

/// The position of the last `c` in `chars[0..end]`, if any.
fn last_index_of(chars: &Vec<char>, end: usize, c: char) -> (res: Option<usize>)
    requires
        end <= chars.len(),
    ensures
        match res {
            Some(k) => k < end && (c == '/' ==> last_slash(chars@.take(end as int)) == k)
                && (c == '.' ==> last_dot(chars@.take(end as int)) == k),
            None => (c == '/' ==> last_slash(chars@.take(end as int)) == -1)
                && (c == '.' ==> last_dot(chars@.take(end as int)) == -1),
        },
{
    let mut i = end;
    while i > 0
        invariant
            i <= end <= chars.len(),
            c == '/' ==> last_slash(chars@.take(end as int)) == last_slash(chars@.take(i as int)),
            c == '.' ==> last_dot(chars@.take(end as int)) == last_dot(chars@.take(i as int)),
            forall|j: int| i <= j < end ==> chars@[j] != c,
        decreases i,
    {
        assert(chars@.take(i as int).drop_last() =~= chars@.take(i - 1));
        assert(chars@.take(i as int).last() == chars@[i - 1]);
        if chars[i - 1] == c {
            return Some(i - 1);
        }
        i = i - 1;
    }
    None
}

/// The range of the file name of the path `chars`.
fn file_name_range(chars: &Vec<char>) -> (res: Option<(usize, usize)>)
    ensures
        match res {
            Some((a, b)) => a <= b <= chars.len() && file_name(chars@) == Some(chars@.subrange(a as int, b as int)),
            None => file_name(chars@) is None,
        },
{
    let mut end = chars.len();
    assert(chars@.take(end as int) =~= chars@);
    loop
        invariant
            end <= chars.len(),
            file_name(chars@) == file_name(chars@.take(end as int)),
        decreases end,
    {
        let ghost p = chars@.take(end as int);
        let slash = last_index_of(chars, end, '/');
        let start = match slash {
            Some(k) => k + 1,
            None => 0,
        };
        assert(p.skip(last_slash(p) + 1) =~= chars@.subrange(start as int, end as int));
        if start == end || chars_match(chars, start, end, ".") {
            match slash {
                Some(k) => {
                    assert(p.take(k as int) =~= chars@.take(k as int));
                    end = k;
                },
                None => return None,
            }
        } else if chars_match(chars, start, end, "..") {
            return None;
        } else {
            return Some((start, end));
        }
    }
}

/// The extension of the path `chars` as a range of it.
fn extension_range(chars: &Vec<char>) -> (res: Option<(usize, usize)>)
    ensures
        match res {
            Some((a, b)) => a <= b <= chars.len() && path_extension(chars@) == Some(chars@.subrange(a as int, b as int)),
            None => path_extension(chars@) is None,
        },
{
    match file_name_range(chars) {
        None => None,
        Some((a, b)) => {
            let name = string_from_chars(chars, a, b);
            let nchars = chars_of(name.as_str());
            match last_index_of(&nchars, nchars.len(), '.') {
                Some(k) => {
                    assert(nchars@.take(nchars.len() as int) =~= nchars@);
                    if k == 0 {
                        None
                    } else {
                        assert(nchars@.skip(k + 1) =~= chars@.subrange(a + k + 1, b as int));
                        Some((a + k + 1, b))
                    }
                },
                None => {
                    assert(nchars@.take(nchars.len() as int) =~= nchars@);
                    None
                },
            }
        },
    }
}

/// The final component of a path (`Path::file_name`).
pub fn file_name_of(path: &str) -> (res: Option<String>)
    ensures
        match res {
            Some(n) => file_name(path@) == Some(n@),
            None => file_name(path@) is None,
        },
{
    let chars = chars_of(path);
    match file_name_range(&chars) {
        Some((a, b)) => Some(string_from_chars(&chars, a, b)),
        None => None,
    }
}

/// Extracts the file extension from a file:// URI (read as a path).
///
/// Returns `None` if the URI has no extension.
pub fn extension_from_uri(uri: &str) -> (res: Option<String>)
    ensures
        match res {
            Some(e) => path_extension(uri@) == Some(e@),
            None => path_extension(uri@) is None,
        },
{
    let chars = chars_of(uri);
    match extension_range(&chars) {
        Some((a, b)) => Some(string_from_chars(&chars, a, b)),
        None => None,
    }
}

/// Determines the LSP language identifier for a given file path: common
/// extensions map to their identifiers, any other extension is its own
/// identifier, and a path without extension is "plaintext".
pub fn language_id_for_path<'a>(path: &'a str) -> (res: &'a str)
    ensures
        res@ == language_id(path@),
{
    let chars = chars_of(path);
    let (a, b) = match extension_range(&chars) {
        Some(r) => r,
        None => (0, 0),
    };
    assert(chars@.subrange(0, 0) =~= Seq::<char>::empty());
    let ghost ext = chars@.subrange(a as int, b as int);
    if chars_match(&chars, a, b, "rs") {
        "rust"
    } else if chars_match(&chars, a, b, "go") {
        "go"
    } else if chars_match(&chars, a, b, "py") {
        "python"
    } else if chars_match(&chars, a, b, "ts") {
        "typescript"
    } else if chars_match(&chars, a, b, "tsx") {
        "typescriptreact"
    } else if chars_match(&chars, a, b, "js") {
        "javascript"
    } else if chars_match(&chars, a, b, "jsx") {
        "javascriptreact"
    } else if chars_match(&chars, a, b, "json") {
        "json"
    } else if chars_match(&chars, a, b, "toml") {
        "toml"
    } else if chars_match(&chars, a, b, "yaml") || chars_match(&chars, a, b, "yml") {
        "yaml"
    } else if chars_match(&chars, a, b, "md") {
        "markdown"
    } else if a == b {
        "plaintext"
    } else {
        let n = path.unicode_len();
        assert(n == chars.len());
        path.substring_char(a, b)
    }
}

/// The serialization of the URL that `url::Url::parse` reads from `input`,
/// or `None` when it rejects the input.
pub uninterp spec fn parsed_url(input: Seq<char>) -> Option<Seq<char>>;

/// The path that `url::Url::to_file_path` gives for the URL with this
/// serialization, as the bytes of the path; `None` when it gives none.
pub uninterp spec fn url_file_path(url: Seq<char>) -> Option<Seq<u8>>;

/// The serialization of the URL that `url::Url::from_directory_path` gives
/// for this path, or `None` when it gives none.
pub uninterp spec fn directory_url(path: Seq<char>) -> Option<Seq<char>>;

/// `url::Url::parse`: the URL's serialization (`Url::as_str`), or an error
/// when the text is not a URL. The contract says only that the result is the
/// function `parsed_url` of the input.
#[verifier::external_body]
fn parse_url(input: &str) -> (res: Option<String>)
    ensures
        match res {
            Some(u) => parsed_url(input@) == Some(u@),
            None => parsed_url(input@) is None,
        },
{
    match url::Url::parse(input) {
        Ok(url) => Some(url.as_str().to_string()),
        Err(_) => None,
    }
}

/// `url::Url::to_file_path` on the URL with serialization `url` (which it
/// reads back with `url::Url::parse`); the path is returned as its bytes
/// (`OsString::into_encoded_bytes`, on Unix the path's own bytes, UTF-8 or
/// not). The contract says only that the result is the function
/// `url_file_path` of the serialization.
#[verifier::external_body]
fn file_path_of_url(url: &str) -> (res: Option<Vec<u8>>)
    ensures
        match res {
            Some(p) => url_file_path(url@) == Some(p@),
            None => url_file_path(url@) is None,
        },
{
    match url::Url::parse(url) {
        Ok(parsed) => match parsed.to_file_path() {
            Ok(path) => Some(path.into_os_string().into_encoded_bytes()),
            Err(()) => None,
        },
        Err(_) => None,
    }
}

/// `url::Url::from_directory_path`: the serialization of the `file:` URL of a
/// directory. The crate targets Unix, where a path is absolute exactly when
/// it starts with `/`; the function gives an error for a path that is not
/// absolute, and otherwise a URL whose serialization ends with `/` (it adds
/// one where the file URL of the path has none). Beyond that, the contract
/// names the result `directory_url`.
#[verifier::external_body]
pub(crate) fn url_of_directory(path: &str) -> (res: Option<String>)
    ensures
        match res {
            Some(u) => directory_url(path@) == Some(u@),
            None => directory_url(path@) is None,
        },
        res is Some <==> (path@.len() > 0 && path@[0] == '/'),
        res matches Some(u) ==> u@.len() > 0 && u@.last() == '/',
{
    match url::Url::from_directory_path(path) {
        Ok(url) => Some(url.as_str().to_string()),
        Err(()) => None,
    }
}

/// Why a URI gives no file path.
#[derive(Clone, Copy, Debug, PartialEq, Eq, Structural)]
pub enum UriError {
    /// invalid URI
    InvalidUri,
    /// only file:// URIs are supported
    NotFileUri,
}

/// The file path that a `file://` URI denotes, as `uri_to_path` finds it
/// before it checks that the path exists.
pub open spec fn spec_uri_path(uri: Seq<char>) -> Result<Seq<u8>, UriError> {
    match parsed_url(uri) {
        None => Err(UriError::InvalidUri),
        Some(u) => match url_file_path(u) {
            Some(p) => Ok(p),
            None => Err(UriError::NotFileUri),
        },
    }
}

/// Converts a file:// URI to a file path, given as the bytes of the path:
/// the URI must parse, and the URL must denote a local file path. Whether
/// the path exists is for the caller to check on the file system.
pub fn file_path_from_uri(uri: &str) -> (res: Result<Vec<u8>, UriError>)
    ensures
        match res {
            Ok(p) => spec_uri_path(uri@) == Ok::<Seq<u8>, UriError>(p@),
            Err(e) => spec_uri_path(uri@) == Err::<Seq<u8>, UriError>(e),
        },
{
    let url = match parse_url(uri) {
        Some(u) => u,
        None => return Err(UriError::InvalidUri),
    };
    match file_path_of_url(url.as_str()) {
        Some(p) => Ok(p),
        None => Err(UriError::NotFileUri),
    }
}

/// The extensions that have a language identifier other than themselves.
pub open spec fn mapped_extensions() -> Set<Seq<char>> {
    set!["rs"@, "go"@, "py"@, "ts"@, "tsx"@, "js"@, "jsx"@, "json"@, "toml"@, "yaml"@, "yml"@, "md"@]
}

/// Only the listed extensions are renamed: a path whose extension is not one
/// of them has that extension as its language identifier, and a path with no
/// extension (or an empty one) is `plaintext`.
pub proof fn law_unlisted_extension_is_its_own_language(p: Seq<char>)
    ensures
        path_extension(p) matches Some(e) ==> (e.len() > 0 && !mapped_extensions().contains(e) ==> language_id(p) == e),
        (path_extension(p) is None || path_extension(p) == Some(Seq::<char>::empty())) ==> language_id(p) == "plaintext"@,
{
    reveal_strlit("rs");
    reveal_strlit("go");
    reveal_strlit("py");
    reveal_strlit("ts");
    reveal_strlit("tsx");
    reveal_strlit("js");
    reveal_strlit("jsx");
    reveal_strlit("json");
    reveal_strlit("toml");
    reveal_strlit("yaml");
    reveal_strlit("yml");
    reveal_strlit("md");
    let e = Seq::<char>::empty();
    assert("rs"@.len() > 0 && "go"@.len() > 0 && "py"@.len() > 0 && "ts"@.len() > 0);
    assert("tsx"@.len() > 0 && "js"@.len() > 0 && "jsx"@.len() > 0 && "json"@.len() > 0);
    assert("toml"@.len() > 0 && "yaml"@.len() > 0 && "yml"@.len() > 0 && "md"@.len() > 0);
    assert(!mapped_extensions().contains(e));
    assert(language_id_of_extension(e) == "plaintext"@);
}

/// The last `/` of `x` + `/` + `y`, where `y` has none, is the one added.
proof fn lemma_last_slash_of_tail(x: Seq<char>, y: Seq<char>)
    requires
        forall|j: int| 0 <= j < y.len() ==> y[j] != '/',
    ensures
        last_slash(x.push('/') + y) == x.len(),
    decreases y.len(),
{
    if y.len() == 0 {
        assert(x.push('/') + y =~= x.push('/'));
    } else {
        lemma_last_slash_of_tail(x, y.drop_last());
        assert((x.push('/') + y).drop_last() =~= x.push('/') + y.drop_last());
    }
}

/// The last `.` of `x` + `.` + `y`, where `y` has none, is the one added.
proof fn lemma_last_dot_of_tail(x: Seq<char>, y: Seq<char>)
    requires
        forall|j: int| 0 <= j < y.len() ==> y[j] != '.',
    ensures
        last_dot(x.push('.') + y) == x.len(),
    decreases y.len(),
{
    if y.len() == 0 {
        assert(x.push('.') + y =~= x.push('.'));
    } else {
        lemma_last_dot_of_tail(x, y.drop_last());
        assert((x.push('.') + y).drop_last() =~= x.push('.') + y.drop_last());
    }
}

/// The extension of a path is what follows the last `.` of its file name:
/// for a file `stem.ext` in any directory `dir` (the stem not empty, neither
/// part holding `/` or `.`), the extension is `ext`, and the language
/// identifier is `ext` itself unless `ext` is one of the listed extensions.
pub proof fn law_extension_follows_last_dot(dir: Seq<char>, stem: Seq<char>, ext: Seq<char>)
    requires
        stem.len() > 0,
        forall|j: int| 0 <= j < stem.len() ==> stem[j] != '/' && stem[j] != '.',
        forall|j: int| 0 <= j < ext.len() ==> ext[j] != '/' && ext[j] != '.',
    ensures
        path_extension(dir.push('/') + stem.push('.') + ext) == Some(ext),
        ext.len() > 0 && !mapped_extensions().contains(ext) ==> language_id(dir.push('/') + stem.push('.') + ext) == ext,
{
    let name = stem.push('.') + ext;
    let p = dir.push('/') + name;
    assert forall|j: int| 0 <= j < name.len() implies name[j] != '/' by {
        if j < stem.len() {
            assert(name[j] == stem[j]);
        } else if j > stem.len() {
            assert(name[j] == ext[j - stem.len() - 1]);
        }
    }
    lemma_last_slash_of_tail(dir, name);
    assert(p.skip(dir.len() + 1 as int) =~= name);
    assert(name[0] == stem[0]);
    assert(name.len() > 0);
    assert(name != "."@ && name != ".."@) by {
        reveal_strlit(".");
        reveal_strlit("..");
        assert("."@[0] == '.');
        assert(".."@[0] == '.');
    }
    assert(file_name(p) == Some(name));
    lemma_last_dot_of_tail(stem, ext);
    assert(name.skip(stem.len() + 1 as int) =~= ext);
    assert(last_dot(name) == stem.len());
    assert(name_extension(name) == Some(ext));
    assert(dir.push('/') + stem.push('.') + ext =~= p);
    law_unlisted_extension_is_its_own_language(p);
}

} // verus!
