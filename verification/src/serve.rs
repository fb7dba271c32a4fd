//! Directory listings for served file trees.
//!
//! The listing pages are built from small HTML templates by replacing the
//! template's `{{name}}` slots with the values at hand.  The replacement is
//! plain text substitution, specified exactly: each non-overlapping
//! occurrence of the slot, leftmost first, becomes the value.
//!
//! `ServeConfig` and `ServeHandler` describe what is served: the canonical
//! root path, handed in by the surrounding file-system layer, and the names
//! kept out of listings.

use std::sync::Arc;
use vstd::prelude::*;

verus! {

/// What replacing every occurrence of `from` in `s` by `to` yields:
/// non-overlapping occurrences, leftmost first.  An empty `from` leaves `s`
/// unchanged.
pub open spec fn spec_replace(s: Seq<char>, from: Seq<char>, to: Seq<char>) -> Seq<char>
    decreases s.len(),
{
    if from.len() == 0 || s.len() < from.len() {
        s
    } else if s.take(from.len() as int) == from {
        to + spec_replace(s.skip(from.len() as int), from, to)
    } else {
        seq![s[0]] + spec_replace(s.drop_first(), from, to)
    }
}

/// Whether `from` occurs in `s` at position `i`.
fn matches_at(s: &str, i: usize, from: &str) -> (r: bool)
    requires
        i <= s@.len(),
    ensures
        r == (i + from@.len() <= s@.len() && s@.subrange(
            i as int,
            i + from@.len(),
        ) == from@),
{
    let n: usize = s.unicode_len();
    let m: usize = from.unicode_len();
    if m > n - i {
        return false;
    }
    let mut j: usize = 0;
    while j < m
        invariant
            j <= m,
            i + m <= n,
            n == s@.len(),
            m == from@.len(),
            forall|k: int| 0 <= k < j ==> s@[i + k] == from@[k],
        decreases m - j,
    {
        if s.get_char(i + j) != from.get_char(j) {
            return false;
        }
        j = j + 1;
    }
    proof {
        assert(s@.subrange(i as int, i + from@.len()) =~= from@);
    }
    true
}

/// Replaces every occurrence of `from` in `s` by `to`, non-overlapping,
/// leftmost first.
pub fn replace_all(s: &str, from: &str, to: &str) -> (r: String)
    ensures
        r@ == spec_replace(s@, from@, to@),
{
    let n: usize = s.unicode_len();
    let m: usize = from.unicode_len();
    if m == 0 {
        return s.to_owned();
    }
    let mut out = String::new();
    let mut i: usize = 0;
    proof {
        assert(s@.skip(0) =~= s@);
        assert(out@ + spec_replace(s@, from@, to@) =~= spec_replace(s@, from@, to@));
    }
    while i < n
        invariant
            i <= n,
            n == s@.len(),
            m == from@.len(),
            m > 0,
            spec_replace(s@, from@, to@) == out@ + spec_replace(s@.skip(i as int), from@, to@),
        decreases n - i,
    {
        if matches_at(s, i, from) {
            out.append(to);
            proof {
                assert(s@.skip(i as int).take(m as int) =~= s@.subrange(i as int, i + m));
                assert(s@.skip(i as int).skip(m as int) =~= s@.skip(i + m));
                assert(spec_replace(s@.skip(i as int), from@, to@) == to@ + spec_replace(
                    s@.skip(i + m),
                    from@,
                    to@,
                ));
            }
            i = i + m;
        } else {
            out.append(s.substring_char(i, i + 1));
            proof {
                let rest = s@.skip(i as int);
                if rest.len() >= m {
                    assert(rest.take(m as int) =~= s@.subrange(i as int, i + m));
                }
                assert(rest.drop_first() =~= s@.skip(i + 1));
                assert(s@.subrange(i as int, i + 1) =~= seq![rest[0]]);
                assert(spec_replace(rest, from@, to@) == seq![rest[0]] + spec_replace(
                    s@.skip(i + 1),
                    from@,
                    to@,
                ));
            }
            i = i + 1;
        }
    }
    proof {
        assert(s@.skip(n as int) =~= Seq::<char>::empty());
        assert(out@ =~= out@ + spec_replace(s@.skip(n as int), from@, to@));
    }
    out
}

/// One listed entry of a directory page: the file template with its link,
/// hover title, kind, extension and display name filled in.
pub fn render_file(href: &str, title: &str, kind: &str, ext: &str, base: &str) -> (r: String)
    ensures
        r@ == spec_replace(
            spec_replace(
                spec_replace(
                    spec_replace(
                        spec_replace(
                            "<li><a href=\"{{href}}\" title=\"{{title}}\" class=\"{{kind}} {{ext}}\">{{base}}</a></li>"@,
                            "{{href}}"@,
                            href@,
                        ),
                        "{{title}}"@,
                        title@,
                    ),
                    "{{kind}}"@,
                    kind@,
                ),
                "{{ext}}"@,
                ext@,
            ),
            "{{base}}"@,
            base@,
        ),
{
    let t = replace_all(
        "<li><a href=\"{{href}}\" title=\"{{title}}\" class=\"{{kind}} {{ext}}\">{{base}}</a></li>",
        "{{href}}",
        href,
    );
    let t = replace_all(t.as_str(), "{{title}}", title);
    let t = replace_all(t.as_str(), "{{kind}}", kind);
    let t = replace_all(t.as_str(), "{{ext}}", ext);
    replace_all(t.as_str(), "{{base}}", base)
}

/// A whole directory page: the page template with its title, breadcrumb
/// trail and entry list filled in.
pub fn render_directory(title: &str, breadcrumb: &str, files: &str) -> (r: String)
    ensures
        r@ == spec_replace(
            spec_replace(
                spec_replace(
                    "<!DOCTYPE html><html><head><meta charset=\"utf-8\"><title>{{title}}</title></head><body><h1>{{breadcrumb}}</h1><ul>{{files}}</ul></body></html>"@,
                    "{{title}}"@,
                    title@,
                ),
                "{{breadcrumb}}"@,
                breadcrumb@,
            ),
            "{{files}}"@,
            files@,
        ),
{
    let t = replace_all(
        "<!DOCTYPE html><html><head><meta charset=\"utf-8\"><title>{{title}}</title></head><body><h1>{{breadcrumb}}</h1><ul>{{files}}</ul></body></html>",
        "{{title}}",
        title,
    );
    let t = replace_all(t.as_str(), "{{breadcrumb}}", breadcrumb);
    replace_all(t.as_str(), "{{files}}", files)
}

/// One step of a breadcrumb trail: the link template with its target and
/// display name filled in.
pub fn render_breadcrumb(href: &str, base: &str) -> (r: String)
    ensures
        r@ == spec_replace(
            spec_replace("<a href=\"{{href}}\">{{base}}/</a>"@, "{{href}}"@, href@),
            "{{base}}"@,
            base@,
        ),
{
    let t = replace_all("<a href=\"{{href}}\">{{base}}/</a>", "{{href}}", href);
    replace_all(t.as_str(), "{{base}}", base)
}

/// What is served: the canonical root directory and the names left out of
/// listings.
#[derive(Debug)]
pub struct ServeConfig {
    public: String,
    unlisted: Option<Vec<&'static str>>,
}

impl ServeConfig {
    /// The root directory files are served from, as the canonical path the
    /// surrounding file-system layer resolved.
    pub closed spec fn spec_public(self) -> Seq<char> {
        self.public@
    }

    /// The names kept out of directory listings, if any.
    pub closed spec fn spec_unlisted(self) -> Option<Seq<Seq<char>>> {
        match self.unlisted {
            Some(v) => Some(v@.map_values(|s: &str| s@)),
            None => None,
        }
    }

    /// A configuration rooted at the given canonical path; version-control
    /// and indexing clutter is unlisted from the start.
    pub fn new(path: String) -> (c: ServeConfig)
        ensures
            c.spec_public() == path@,
            c.spec_unlisted() == Some(seq![".DS_Store"@, ".git"@]),
    {
        let mut unlisted: Vec<&'static str> = Vec::new();
        unlisted.push(".DS_Store");
        unlisted.push(".git");
        let c = ServeConfig { public: path, unlisted: Some(unlisted) };
        proof {
            assert(c.spec_unlisted().unwrap() =~= seq![".DS_Store"@, ".git"@]);
        }
        c
    }

    /// Adds names to keep out of listings; what was unlisted stays so.
    pub fn unlisted(&mut self, list: Vec<&'static str>)
        ensures
            final(self).spec_public() == old(self).spec_public(),
            final(self).spec_unlisted() == match old(self).spec_unlisted() {
                Some(u) => Some(u + list@.map_values(|s: &str| s@)),
                None => Some(list@.map_values(|s: &str| s@)),
            },
    {
        let ghost added = list@.map_values(|s: &str| s@);
        let mut list = list;
        let prev = self.unlisted.take();
        match prev {
            Some(u) => {
                let mut u = u;
                u.append(&mut list);
                self.unlisted = Some(u);
                proof {
                    assert(self.spec_unlisted().unwrap() =~= old(self).spec_unlisted().unwrap()
                        + added);
                }
            },
            None => {
                self.unlisted = Some(list);
                proof {
                    assert(self.spec_unlisted().unwrap() =~= added);
                }
            },
        }
    }
}

/// The handler serving a configured file tree; many routes may share one
/// configuration.
#[derive(Clone)]
pub struct ServeHandler {
    config: Arc<ServeConfig>,
}

impl ServeHandler {
    /// The configuration the handler serves.
    pub closed spec fn spec_config(self) -> ServeConfig {
        *self.config
    }

    /// A handler around the given configuration.
    pub fn new(config: ServeConfig) -> (h: ServeHandler)
        ensures
            h.spec_config() == config,
    {
        ServeHandler { config: Arc::new(config) }
    }
}

} // verus!
