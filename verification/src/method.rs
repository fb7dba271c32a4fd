//! The HTTP methods the router can register routes under.

use vstd::prelude::*;

use crate::text::str_eq;

verus! {

/// One of the nine standard HTTP request methods.
#[derive(Clone, Copy, PartialEq, Eq, Structural, Debug, Hash)]
pub enum Method {
    Get,
    Post,
    Put,
    Patch,
    Delete,
    Head,
    Options,
    Connect,
    Trace,
}

/// How many distinct methods there are.
pub const METHOD_COUNT: usize = 9;

impl Method {
    /// The position of this method in the router's per-method table.
    pub open spec fn spec_index(self) -> int {
        match self {
            Method::Get => 0,
            Method::Post => 1,
            Method::Put => 2,
            Method::Patch => 3,
            Method::Delete => 4,
            Method::Head => 5,
            Method::Options => 6,
            Method::Connect => 7,
            Method::Trace => 8,
        }
    }

    /// Index of this method into a table with one slot per method.
    pub fn index(self) -> (i: usize)
        ensures
            i == self.spec_index(),
            i < METHOD_COUNT,
    {
        match self {
            Method::Get => 0,
            Method::Post => 1,
            Method::Put => 2,
            Method::Patch => 3,
            Method::Delete => 4,
            Method::Head => 5,
            Method::Options => 6,
            Method::Connect => 7,
            Method::Trace => 8,
        }
    }

    /// The canonical upper-case name of the method.
    pub fn as_str(self) -> (s: &'static str)
        ensures
            s@ == self.spec_name(),
    {
        proof {
            reveal_strlit("GET");
            reveal_strlit("POST");
            reveal_strlit("PUT");
            reveal_strlit("PATCH");
            reveal_strlit("DELETE");
            reveal_strlit("HEAD");
            reveal_strlit("OPTIONS");
            reveal_strlit("CONNECT");
            reveal_strlit("TRACE");
        }
        match self {
            Method::Get => "GET",
            Method::Post => "POST",
            Method::Put => "PUT",
            Method::Patch => "PATCH",
            Method::Delete => "DELETE",
            Method::Head => "HEAD",
            Method::Options => "OPTIONS",
            Method::Connect => "CONNECT",
            Method::Trace => "TRACE",
        }
    }

    /// The canonical name as a sequence of characters.
    pub open spec fn spec_name(self) -> Seq<char> {
        match self {
            Method::Get => "GET"@,
            Method::Post => "POST"@,
            Method::Put => "PUT"@,
            Method::Patch => "PATCH"@,
            Method::Delete => "DELETE"@,
            Method::Head => "HEAD"@,
            Method::Options => "OPTIONS"@,
            Method::Connect => "CONNECT"@,
            Method::Trace => "TRACE"@,
        }
    }

    /// The method a canonical upper-case name denotes, if any.
    pub open spec fn spec_from_name(s: Seq<char>) -> Option<Method> {
        if s == "GET"@ {
            Some(Method::Get)
        } else if s == "POST"@ {
            Some(Method::Post)
        } else if s == "PUT"@ {
            Some(Method::Put)
        } else if s == "PATCH"@ {
            Some(Method::Patch)
        } else if s == "DELETE"@ {
            Some(Method::Delete)
        } else if s == "HEAD"@ {
            Some(Method::Head)
        } else if s == "OPTIONS"@ {
            Some(Method::Options)
        } else if s == "CONNECT"@ {
            Some(Method::Connect)
        } else if s == "TRACE"@ {
            Some(Method::Trace)
        } else {
            None
        }
    }

    /// Reads a method from its canonical upper-case name.
    pub fn from_name(s: &str) -> (r: Option<Method>)
        ensures
            r == Self::spec_from_name(s@),
    {
        if str_eq(s, "GET") {
            Some(Method::Get)
        } else if str_eq(s, "POST") {
            Some(Method::Post)
        } else if str_eq(s, "PUT") {
            Some(Method::Put)
        } else if str_eq(s, "PATCH") {
            Some(Method::Patch)
        } else if str_eq(s, "DELETE") {
            Some(Method::Delete)
        } else if str_eq(s, "HEAD") {
            Some(Method::Head)
        } else if str_eq(s, "OPTIONS") {
            Some(Method::Options)
        } else if str_eq(s, "CONNECT") {
            Some(Method::Connect)
        } else if str_eq(s, "TRACE") {
            Some(Method::Trace)
        } else {
            None
        }
    }

    /// Every method, in table order.
    pub fn all() -> (v: Vec<Method>)
        ensures
            v@ == Self::spec_all(),
            v@.len() == METHOD_COUNT,
            forall|i: int| 0 <= i < METHOD_COUNT ==> (#[trigger] v@[i]).spec_index() == i,
    {
        let mut v: Vec<Method> = Vec::new();
        v.push(Method::Get);
        v.push(Method::Post);
        v.push(Method::Put);
        v.push(Method::Patch);
        v.push(Method::Delete);
        v.push(Method::Head);
        v.push(Method::Options);
        v.push(Method::Connect);
        v.push(Method::Trace);
        proof {
            assert(v@ =~= Self::spec_all());
            assert(forall|i: int| 0 <= i < METHOD_COUNT ==> (#[trigger] v@[i]).spec_index() == i);
        }
        v
    }

    /// Every method, in table order.
    pub open spec fn spec_all() -> Seq<Method> {
        seq![
            Method::Get,
            Method::Post,
            Method::Put,
            Method::Patch,
            Method::Delete,
            Method::Head,
            Method::Options,
            Method::Connect,
            Method::Trace,
        ]
    }

    /// Two distinct methods never share a table slot.
    pub proof fn lemma_index_injective(a: Method, b: Method)
        ensures
            a.spec_index() == b.spec_index() ==> a == b,
    {
    }

    /// Every method stands in the table, at its own slot.
    pub proof fn lemma_all_complete(m: Method)
        ensures
            Self::spec_all().contains(m),
            Self::spec_all()[m.spec_index()] == m,
    {
        assert(Self::spec_all()[m.spec_index()] == m);
        assert(Self::spec_all().contains(m)) by {
            assert(0 <= m.spec_index() < Self::spec_all().len());
        }
    }
}

} // verus!
