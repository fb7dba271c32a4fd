//! RESTful resource actions.
//!
//! A resource registration expands a closed set of conventional actions into
//! routes, each action contributing a fixed (sub-path, HTTP method) pair.
//! `Resources` describes a plural collection (`Show` lives at `:id`),
//! `Resource` a singular one (`Show` lives at the base path itself).

use vstd::prelude::*;

use crate::method::Method;

verus! {

/// An action on a singular resource.
#[derive(Clone, Copy, Debug)]
pub enum Resource {
    Show,
    Create,
    Update(Method),
    Delete,
    Edit,
    New,
}

impl Resource {
    /// The sub-path the action lives at.
    pub open spec fn spec_sub_path(self) -> Seq<char> {
        match self {
            Resource::Show => ""@,
            Resource::Create => ""@,
            Resource::Update(_) => ""@,
            Resource::Delete => ""@,
            Resource::Edit => "edit"@,
            Resource::New => "new"@,
        }
    }

    /// The HTTP method the action answers to.
    pub open spec fn spec_method(self) -> Method {
        match self {
            Resource::Show => Method::Get,
            Resource::Create => Method::Post,
            Resource::Update(m) => m,
            Resource::Delete => Method::Delete,
            Resource::Edit => Method::Get,
            Resource::New => Method::Get,
        }
    }

    /// The fixed (sub-path, method) pair of the action.
    pub fn as_tuple(&self) -> (r: (&'static str, Method))
        ensures
            r.0@ == self.spec_sub_path(),
            r.1 == self.spec_method(),
    {
        proof {
            reveal_strlit("");
            reveal_strlit("edit");
            reveal_strlit("new");
        }
        match self {
            Resource::Show => ("", Method::Get),
            Resource::Create => ("", Method::Post),
            Resource::Update(m) => ("", *m),
            Resource::Delete => ("", Method::Delete),
            Resource::Edit => ("edit", Method::Get),
            Resource::New => ("new", Method::Get),
        }
    }
}

/// An action on a plural resource collection.
#[derive(Clone, Copy, Debug)]
pub enum Resources {
    Index,
    Create,
    New,
    Show,
    Update(Method),
    Delete,
    Edit,
}

impl Resources {
    /// The sub-path template the action lives at; `:id` is renamed after the
    /// resource before registration.
    pub open spec fn spec_sub_path(self) -> Seq<char> {
        match self {
            Resources::Index => ""@,
            Resources::Create => ""@,
            Resources::New => "new"@,
            Resources::Show => ":id"@,
            Resources::Update(_) => ":id"@,
            Resources::Delete => ":id"@,
            Resources::Edit => ":id/edit"@,
        }
    }

    /// The HTTP method the action answers to.
    pub open spec fn spec_method(self) -> Method {
        match self {
            Resources::Index => Method::Get,
            Resources::Create => Method::Post,
            Resources::New => Method::Get,
            Resources::Show => Method::Get,
            Resources::Update(m) => m,
            Resources::Delete => Method::Delete,
            Resources::Edit => Method::Get,
        }
    }

    /// The fixed (sub-path template, method) pair of the action.
    pub fn as_tuple(&self) -> (r: (&'static str, Method))
        ensures
            r.0@ == self.spec_sub_path(),
            r.1 == self.spec_method(),
    {
        proof {
            reveal_strlit("");
            reveal_strlit("new");
            reveal_strlit(":id");
            reveal_strlit(":id/edit");
        }
        match self {
            Resources::Index => ("", Method::Get),
            Resources::Create => ("", Method::Post),
            Resources::New => ("new", Method::Get),
            Resources::Show => (":id", Method::Get),
            Resources::Update(m) => (":id", *m),
            Resources::Delete => (":id", Method::Delete),
            Resources::Edit => (":id/edit", Method::Get),
        }
    }
}

/// What renaming the leading `:id` parameter token after a resource yields:
/// `:id` becomes `:<singular>_id`, and only when `:id` stands as a whole
/// path segment, so a literal segment that merely contains `id` is left
/// alone.
pub open spec fn spec_rename_id(sub: Seq<char>, singular: Seq<char>) -> Seq<char> {
    if sub.len() >= 3 && sub.take(3) == ":id"@ && (sub.len() == 3 || sub[3] == '/') {
        seq![':'] + singular + "_id"@ + sub.skip(3)
    } else {
        sub
    }
}

/// Renames a leading `:id` capture token to `:<singular>_id`, token-aware:
/// a segment that merely contains the letters `id` is not touched.
pub fn rename_id_param(sub: &str, singular: &str) -> (r: String)
    ensures
        r@ == spec_rename_id(sub@, singular@),
{
    proof {
        reveal_strlit(":id");
        reveal_strlit(":");
        reveal_strlit("_id");
    }
    let n = sub.unicode_len();
    let is_id_token = n >= 3 && sub.get_char(0) == ':' && sub.get_char(1) == 'i' && sub.get_char(
        2,
    ) == 'd' && (n == 3 || sub.get_char(3) == '/');
    proof {
        if n >= 3 {
            assert((sub@.take(3) == ":id"@) == (sub@[0] == ':' && sub@[1] == 'i' && sub@[2]
                == 'd')) by {
                reveal_strlit(":id");
                if sub@.take(3) == ":id"@ {
                    assert(sub@[0] == sub@.take(3)[0] && sub@[1] == sub@.take(3)[1] && sub@[2]
                        == sub@.take(3)[2]);
                }
                if sub@[0] == ':' && sub@[1] == 'i' && sub@[2] == 'd' {
                    assert(sub@.take(3) =~= ":id"@);
                }
            }
        }
    }
    if is_id_token {
        let mut r = String::from_str(":");
        r.append(singular);
        r.append("_id");
        r.append(sub.substring_char(3, n));
        proof {
            assert(r@ =~= spec_rename_id(sub@, singular@));
        }
        r
    } else {
        sub.to_owned()
    }
}

} // verus!
