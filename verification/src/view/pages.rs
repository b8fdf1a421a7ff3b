//! The views this crate provides: the not-found page and pages served
//! from files.
use vstd::prelude::*;
use std::collections::HashMap;
use crate::http::Response;
use crate::router::{not_found_page, ok_response_with_body};
use crate::http::{fresh_response, response_view, set_field, byte_len, status_not_found, status_ok, ResponseView};
use crate::text::decimal;
use super::cache_contents;

verus! {

/// The view that shows that a page was not found.
pub struct NotFound;

impl super::View for NotFound {
    /// A `200 OK` response whose body says that the page was not found; the
    /// cache is left as it is.
    fn render(&self, cache: &mut HashMap<String, String>) -> (r: Response)
        ensures
            ok_response_with_body(response_view(&r), not_found_page()),
            cache_contents(*final(cache)) == cache_contents(*old(cache)),
    {
        let response = Response::ok();
        let ghost f = response_view(&response);
        let r = response.body("<html><body> PAGE NOT FOUND </body></html>".to_owned());
        assert(fresh_response(f, status_ok()));
        r
    }
}

/// The path `path` pushed onto directory `dir`, as on Unix: an absolute
/// path replaces the directory; otherwise the two are joined with one `/`
/// unless the directory is empty or already ends with one.
pub open spec fn push_path(dir: Seq<char>, path: Seq<char>) -> Seq<char> {
    if path.len() > 0 && path[0] == '/' {
        path
    } else if dir.len() > 0 && dir.last() != '/' {
        dir + "/"@ + path
    } else {
        dir + path
    }
}

/// Pushing a path onto a directory: an absolute path is kept whole; a
/// relative path onto a directory that is not empty and does not end with
/// `/` gives the directory, one `/`, then the whole path, whatever the path
/// holds; onto an empty directory or one ending with `/` it gives the
/// directory followed by the path.
pub proof fn lemma_push_path(dir: Seq<char>, path: Seq<char>)
    ensures
        path.len() > 0 && path[0] == '/' ==> push_path(dir, path) == path,
        !(path.len() > 0 && path[0] == '/') && dir.len() > 0 && dir.last() != '/' ==> {
            let r = push_path(dir, path);
            &&& r.len() == dir.len() + 1 + path.len()
            &&& r.take(dir.len() as int) == dir
            &&& r[dir.len() as int] == '/'
            &&& r.skip(dir.len() + 1int) == path
        },
        !(path.len() > 0 && path[0] == '/') && !(dir.len() > 0 && dir.last() != '/') ==> {
            let r = push_path(dir, path);
            &&& r.len() == dir.len() + path.len()
            &&& r.take(dir.len() as int) == dir
            &&& r.skip(dir.len() as int) == path
        },
{
    reveal_strlit("/");
    if !(path.len() > 0 && path[0] == '/') {
        let r = push_path(dir, path);
        if dir.len() > 0 && dir.last() != '/' {
            assert(r == dir + "/"@ + path);
            assert(r.take(dir.len() as int) =~= dir);
            assert(r.skip(dir.len() + 1int) =~= path);
        } else {
            assert(r == dir + path);
            assert(r.take(dir.len() as int) =~= dir);
            assert(r.skip(dir.len() as int) =~= path);
        }
    }
}

/// A page served from a file.
pub struct Page {
    url: String,
}

impl Page {
    /// The path of the page's file.
    pub closed spec fn path(&self) -> Seq<char> {
        self.url@
    }

    /// The page of the file at `path`, taken relative to `current_dir`
    /// unless it is absolute.
    pub fn new(current_dir: String, path: &'static str) -> (p: Page)
        ensures
            p.path() == push_path(current_dir@, path@),
    {
        proof {
            reveal_strlit("/");
        }
        let absolute = path.unicode_len() > 0 && path.get_char(0) == '/';
        if absolute {
            Page { url: path.to_owned() }
        } else {
            let n = current_dir.as_str().unicode_len();
            if n > 0 && current_dir.as_str().get_char(n - 1) != '/' {
                let mut url = current_dir;
                url.append("/");
                url.append(path);
                Page { url: url }
            } else {
                let mut url = current_dir;
                url.append(path);
                Page { url: url }
            }
        }
    }

    /// The path of the page's file.
    pub fn url(&self) -> (u: &str)
        ensures
            u@ == self.path(),
    {
        self.url.as_str()
    }

    /// The response to a request for the page, given what reading its file
    /// gave: `404 NOT FOUND` where the file could not be opened, else a
    /// `200 OK` response with the text read as its body.
    pub fn render_contents(&self, contents: Option<String>) -> (r: Response)
        ensures
            match contents {
                None => fresh_response(response_view(&r), status_not_found()),
                Some(text) => ok_response_with_body(response_view(&r), text@),
            },
    {
        match contents {
            None => Response::not_found(),
            Some(text) => {
                let response = Response::ok();
                let ghost f = response_view(&response);
                let ghost t = text@;
                let r = response.body(text);
                assert(fresh_response(f, status_ok()));
                assert(response_view(&r) == (ResponseView {
                    fields: set_field(f.fields, "Content-Length"@, decimal(byte_len(t))),
                    body: t,
                    ..f
                }));
                r
            },
        }
    }
}

} // verus!
