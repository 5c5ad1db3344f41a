//! The files of the Web UI.
use vstd::prelude::*;
use vstd::string::*;

use crate::text;

verus! {

/// A path without the slashes it starts with.
pub open spec fn without_leading_slashes(s: Seq<char>) -> Seq<char>
    decreases s.len(),
{
    if s.len() > 0 && s[0] == '/' {
        without_leading_slashes(s.subrange(1, s.len() as int))
    } else {
        s
    }
}

/// The file a path asks for: the index where it names none.
pub open spec fn file_at(path: Seq<char>) -> Seq<char> {
    let name = without_leading_slashes(path);
    if name.len() == 0 {
        "index.html"@
    } else {
        name
    }
}

/// The file a path asks for.
pub fn asset_path(path: &str) -> (r: String)
    ensures
        r@ == file_at(path@),
        path@.len() > 0 && path@[0] != '/' ==> r@ == path@,
        path@.len() == 0 ==> r@ == "index.html"@,
        r@.len() > 0 && r@[0] != '/',
{
    proof {
        reveal_strlit("index.html");
    }
    let chars = text::chars_of(path);
    let mut i: usize = 0;
    assert(path@.subrange(0, path@.len() as int) =~= path@);
    while i < chars.len() && chars[i] == '/'
        invariant
            i <= chars@.len(),
            chars@ == path@,
            without_leading_slashes(path@.subrange(i as int, path@.len() as int)) == without_leading_slashes(path@),
        decreases chars.len() - i,
    {
        let ghost rest = path@.subrange(i as int, path@.len() as int);
        assert(rest[0] == '/');
        assert(rest.subrange(1, rest.len() as int) =~= path@.subrange(i + 1, path@.len() as int));
        i = i + 1;
    }
    if i == chars.len() {
        text::copy("index.html")
    } else {
        text::string_of_range(chars.as_slice(), i, chars.len())
    }
}

/// What stands behind the last dot of a path; all of it where there is none.
pub open spec fn extension(path: Seq<char>) -> Seq<char> {
    let parts = text::pieces(path, '.');
    parts[parts.len() - 1]
}

/// The content type of the files with an extension.
pub open spec fn type_of(ext: Seq<char>) -> Seq<char> {
    if ext == "html"@ {
        "text/html; charset=utf-8"@
    } else if ext == "css"@ {
        "text/css; charset=utf-8"@
    } else if ext == "js"@ {
        "application/javascript; charset=utf-8"@
    } else if ext == "json"@ {
        "application/json"@
    } else if ext == "png"@ {
        "image/png"@
    } else if ext == "svg"@ {
        "image/svg+xml"@
    } else if ext == "ico"@ {
        "image/x-icon"@
    } else if ext == "woff"@ {
        "font/woff"@
    } else if ext == "woff2"@ {
        "font/woff2"@
    } else if ext == "ttf"@ {
        "font/ttf"@
    } else if ext == "wasm"@ {
        "application/wasm"@
    } else {
        "application/octet-stream"@
    }
}

/// The content type of a file.
pub fn mime_guess_from_path(path: &str) -> (r: &'static str)
    ensures
        r@ == type_of(extension(path@)),
        extension(path@) == "html"@ ==> r@ == "text/html; charset=utf-8"@,
        extension(path@) == "css"@ ==> r@ == "text/css; charset=utf-8"@,
        extension(path@) == "js"@ ==> r@ == "application/javascript; charset=utf-8"@,
        extension(path@) == "json"@ ==> r@ == "application/json"@,
        extension(path@) == "png"@ ==> r@ == "image/png"@,
        extension(path@) == "svg"@ ==> r@ == "image/svg+xml"@,
        extension(path@) == "ico"@ ==> r@ == "image/x-icon"@,
        extension(path@) == "woff"@ ==> r@ == "font/woff"@,
        extension(path@) == "woff2"@ ==> r@ == "font/woff2"@,
        extension(path@) == "ttf"@ ==> r@ == "font/ttf"@,
        extension(path@) == "wasm"@ ==> r@ == "application/wasm"@,
{
    proof {
        lemma_extensions_differ();
    }
    let parts = text::split(path, '.');
    assert(text::texts(parts@)[parts@.len() - 1] == parts@[parts@.len() - 1]@);
    let ext = parts[parts.len() - 1].as_str();
    if text::same_text(ext, "html") {
        "text/html; charset=utf-8"
    } else if text::same_text(ext, "css") {
        "text/css; charset=utf-8"
    } else if text::same_text(ext, "js") {
        "application/javascript; charset=utf-8"
    } else if text::same_text(ext, "json") {
        "application/json"
    } else if text::same_text(ext, "png") {
        "image/png"
    } else if text::same_text(ext, "svg") {
        "image/svg+xml"
    } else if text::same_text(ext, "ico") {
        "image/x-icon"
    } else if text::same_text(ext, "woff") {
        "font/woff"
    } else if text::same_text(ext, "woff2") {
        "font/woff2"
    } else if text::same_text(ext, "ttf") {
        "font/ttf"
    } else if text::same_text(ext, "wasm") {
        "application/wasm"
    } else {
        "application/octet-stream"
    }
}

/// What a path is answered with.
#[derive(Clone, Debug)]
pub enum Served {
    /// The file it asks for.
    File { name: String, content_type: &'static str },
    /// The index in its place: an unknown path is a view of the Web UI.
    Index { content_type: &'static str },
    /// There is no Web UI.
    Missing { content_type: &'static str, message: &'static str },
}

/// Tell what a path is answered with, from whether its file and the index are there.
pub fn serve(path: &str, found: bool, index_found: bool) -> (r: Served)
    ensures
        if found {
            r matches Served::File { name, content_type } && name@ == file_at(path@) && content_type@ == type_of(
                extension(file_at(path@)),
            )
        } else if index_found {
            r matches Served::Index { content_type } && content_type@ == "text/html; charset=utf-8"@
        } else {
            r matches Served::Missing { content_type, message } && content_type@ == "text/plain"@ && message@
                == "Web UI not found. Build the webui first."@
        },
{
    if found {
        let name = asset_path(path);
        let content_type = mime_guess_from_path(name.as_str());
        Served::File { name, content_type }
    } else if index_found {
        Served::Index { content_type: "text/html; charset=utf-8" }
    } else {
        Served::Missing { content_type: "text/plain", message: "Web UI not found. Build the webui first." }
    }
}

proof fn lemma_extensions_differ()
    ensures
        "html"@ != "json"@,
        "html"@ != "woff"@,
        "html"@ != "wasm"@,
        "json"@ != "woff"@,
        "json"@ != "wasm"@,
        "woff"@ != "wasm"@,
        "css"@ != "png"@,
        "css"@ != "svg"@,
        "css"@ != "ico"@,
        "css"@ != "ttf"@,
        "png"@ != "svg"@,
        "png"@ != "ico"@,
        "png"@ != "ttf"@,
        "svg"@ != "ico"@,
        "svg"@ != "ttf"@,
        "ico"@ != "ttf"@,
        "html"@.len() == 4,
        "json"@.len() == 4,
        "woff"@.len() == 4,
        "wasm"@.len() == 4,
        "css"@.len() == 3,
        "png"@.len() == 3,
        "svg"@.len() == 3,
        "ico"@.len() == 3,
        "ttf"@.len() == 3,
        "js"@.len() == 2,
        "woff2"@.len() == 5,
{
    reveal_strlit("html");
    reveal_strlit("json");
    reveal_strlit("woff");
    reveal_strlit("wasm");
    reveal_strlit("css");
    reveal_strlit("png");
    reveal_strlit("svg");
    reveal_strlit("ico");
    reveal_strlit("ttf");
    reveal_strlit("js");
    reveal_strlit("woff2");
    assert("html"@[0] == 'h' && "json"@[0] == 'j' && "woff"@[1] == 'o' && "wasm"@[1] == 'a' && "woff"@[0] == 'w'
        && "wasm"@[0] == 'w');
    assert("css"@[0] == 'c' && "png"@[0] == 'p' && "svg"@[0] == 's' && "ico"@[0] == 'i' && "ttf"@[0] == 't');
}

/// Slashes in front of a path change nothing about the file it asks for.
pub proof fn law_leading_slashes_do_not_matter(path: Seq<char>)
    ensures
        file_at(seq!['/'] + path) == file_at(path),
        path.len() > 0 && path[0] != '/' ==> file_at(path) == path,
{
    let slashed = seq!['/'] + path;
    assert(slashed[0] == '/');
    assert(slashed.subrange(1, slashed.len() as int) =~= path);
}

} // verus!
