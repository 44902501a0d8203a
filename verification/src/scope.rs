//! Scopes: what may be done with which resource of which owner, and their
//! canonical text `id:name:permission`.

use vstd::prelude::*;
use vstd::string::StringExecFns;
use crate::error::Error;
use crate::id::{hex_digit_value, hex_digits, lemma_id_text_round_trip, parsed_id, Id, HEX_LEN};
use crate::text::{chars_of, lemma_split_append, lemma_split_whole, same_text, split, split_text};

verus! {

/// What a scope allows to do with a resource.
#[derive(Clone, Copy, Debug, PartialEq, Eq, Hash, Structural)]
pub enum Permission {
    Create,
    Read,
    Update,
    Delete,
}

impl Permission {
    /// The text that writes the permission.
    pub open spec fn text(self) -> Seq<char> {
        match self {
            Permission::Create => "create"@,
            Permission::Read => "read"@,
            Permission::Update => "update"@,
            Permission::Delete => "delete"@,
        }
    }

    /// The permission that a text writes, if it writes one.
    pub open spec fn of_text(text: Seq<char>) -> Option<Permission> {
        if text == "create"@ {
            Some(Permission::Create)
        } else if text == "read"@ {
            Some(Permission::Read)
        } else if text == "update"@ {
            Some(Permission::Update)
        } else if text == "delete"@ {
            Some(Permission::Delete)
        } else {
            None
        }
    }

    /// The text that writes the permission.
    pub fn as_str(&self) -> (out: &'static str)
        ensures
            out@ == self.text(),
    {
        match self {
            Permission::Create => "create",
            Permission::Read => "read",
            Permission::Update => "update",
            Permission::Delete => "delete",
        }
    }

    /// The permission that a text writes, if it writes one.
    pub fn parse(text: &str) -> (out: Option<Permission>)
        ensures
            out == Permission::of_text(text@),
    {
        if same_text(text, "create") {
            Some(Permission::Create)
        } else if same_text(text, "read") {
            Some(Permission::Read)
        } else if same_text(text, "update") {
            Some(Permission::Update)
        } else if same_text(text, "delete") {
            Some(Permission::Delete)
        } else {
            None
        }
    }

    /// Every permission is the one that its own text writes.
    pub proof fn lemma_text_round_trip(self)
        ensures
            Permission::of_text(self.text()) == Some(self),
    {
        reveal_strlit("create");
        reveal_strlit("read");
        reveal_strlit("update");
        reveal_strlit("delete");
        assert("create"@.len() == 6);
        assert("read"@.len() == 4);
        assert("update"@[0] == 'u');
        assert("delete"@[0] == 'd');
        assert("create"@[0] == 'c');
    }
}

/// A permission on a named resource of an owner.
#[derive(Debug, PartialEq, Eq)]
pub struct Scope {
    /// The owner of the resource.
    pub id: Id,
    /// The name of the resource.
    pub name: String,
    /// What the scope allows.
    pub permission: Permission,
}

/// What a [`Scope`] holds.
pub struct ScopeView {
    pub id: Id,
    pub name: Seq<char>,
    pub permission: Permission,
}

impl View for Scope {
    type V = ScopeView;

    open spec fn view(&self) -> ScopeView {
        ScopeView { id: self.id, name: self.name@, permission: self.permission }
    }
}

impl Clone for Scope {
    fn clone(&self) -> (out: Scope)
        ensures
            out@ == self@,
    {
        Scope { id: self.id, name: self.name.clone(), permission: self.permission }
    }
}

/// The failure of a text to be a scope, with the field that is at fault.
pub open spec fn invalid_scope(field: Option<&'static str>) -> Error {
    Error::ConversionError { field, status: 400, message: Some("invalid scope") }
}

/// The scope that a text writes. The text has exactly three fields parted by
/// colons: an identifier of 24 hexadecimal digits, a name, and a permission.
pub open spec fn parsed_scope(text: Seq<char>) -> Result<ScopeView, Error> {
    let fields = split_text(text, ':');
    if fields.len() != 3 {
        Err(invalid_scope(None))
    } else {
        match (parsed_id(fields[0]), Permission::of_text(fields[2])) {
            (None, _) => Err(invalid_scope(Some("id"))),
            (Some(_), None) => Err(invalid_scope(Some("permission"))),
            (Some(id), Some(permission)) => Ok(ScopeView { id, name: fields[1], permission }),
        }
    }
}

impl ScopeView {
    /// The canonical text of the scope.
    pub open spec fn canonical(self) -> Seq<char> {
        hex_digits(self.id.number() as nat, HEX_LEN as nat) + ":"@ + self.name + ":"@
            + self.permission.text()
    }
}

/// The text of a permission holds no colon.
pub proof fn lemma_permission_text(permission: Permission)
    ensures
        !permission.text().contains(':'),
{
    reveal_strlit("create");
    reveal_strlit("read");
    reveal_strlit("update");
    reveal_strlit("delete");
    let s = permission.text();
    assert forall|i: int| 0 <= i < s.len() implies s[i] != ':' by {
        match permission {
            Permission::Create => {
                assert("create"@[0] == 'c' && "create"@[1] == 'r' && "create"@[2] == 'e'
                    && "create"@[3] == 'a' && "create"@[4] == 't' && "create"@[5] == 'e');
            },
            Permission::Read => {
                assert("read"@[0] == 'r' && "read"@[1] == 'e' && "read"@[2] == 'a' && "read"@[3]
                    == 'd');
            },
            Permission::Update => {
                assert("update"@[0] == 'u' && "update"@[1] == 'p' && "update"@[2] == 'd'
                    && "update"@[3] == 'a' && "update"@[4] == 't' && "update"@[5] == 'e');
            },
            Permission::Delete => {
                assert("delete"@[0] == 'd' && "delete"@[1] == 'e' && "delete"@[2] == 'l'
                    && "delete"@[3] == 'e' && "delete"@[4] == 't' && "delete"@[5] == 'e');
            },
        }
    }
}

/// Canonical round trip: the canonical text of a scope writes the scope,
/// provided that its identifier is well-formed and its name holds no colon.
pub proof fn lemma_scope_round_trip(scope: ScopeView)
    requires
        scope.id.wf(),
        !scope.name.contains(':'),
    ensures
        parsed_scope(scope.canonical()) == Ok::<ScopeView, Error>(scope),
{
    reveal_strlit(":");
    let hex = hex_digits(scope.id.number() as nat, HEX_LEN as nat);
    let text = scope.permission.text();
    assert(":"@ =~= seq![':']);
    lemma_id_text_round_trip(scope.id);
    assert(!hex.contains(':')) by {
        if hex.contains(':') {
            let i = choose|i: int| 0 <= i < hex.len() && hex[i] == ':';
            assert(hex_digit_value(hex[i]) is Some);
        }
    }
    lemma_permission_text(scope.permission);
    scope.permission.lemma_text_round_trip();
    lemma_split_whole(hex, ':');
    lemma_split_append(hex, scope.name, ':');
    lemma_split_append(hex + seq![':'] + scope.name, text, ':');
    let fields = split_text(scope.canonical(), ':');
    assert(fields =~= seq![hex, scope.name, text]);
}

/// The status with which a scope answers a request: 201 where the request
/// created it, which the method `POST` says, else 200.
pub fn response_status(method: &str) -> (out: u16)
    ensures
        out == if method@ == "POST"@ {
            201u16
        } else {
            200u16
        },
{
    if same_text(method, "POST") {
        201
    } else {
        200
    }
}

impl Scope {
    /// Reads a scope from its text. Fails with a conversion failure unless
    /// the text has exactly three fields parted by colons, the first writes
    /// an identifier and the third a permission.
    pub fn from_str(s: &str) -> (out: Result<Scope, Error>)
        ensures
            match out {
                Ok(scope) => parsed_scope(s@) == Ok::<ScopeView, Error>(scope@),
                Err(e) => parsed_scope(s@) == Err::<ScopeView, Error>(e),
            },
    {
        let chars = chars_of(s);
        let fields = split(&chars, ':');
        if fields.len() != 3 {
            return Err(Error::conversion_error(Some("invalid scope")));
        }
        assert(fields.deep_view()[0] == fields[0]@);
        assert(fields.deep_view()[1] == fields[1]@);
        assert(fields.deep_view()[2] == fields[2]@);
        let id = match Id::parse(fields[0].as_str()) {
            Some(id) => id,
            None => {
                return Err(Error::conversion_error(Some("invalid scope")).set_field("id"));
            },
        };
        let permission = match Permission::parse(fields[2].as_str()) {
            Some(permission) => permission,
            None => {
                return Err(
                    Error::conversion_error(Some("invalid scope")).set_field("permission"),
                );
            },
        };
        Ok(Scope { id, name: fields[1].clone(), permission })
    }

    /// The canonical text of the scope: the identifier in hexadecimal, the
    /// name and the permission, parted by colons.
    pub fn to_canonical(&self) -> (out: String)
        ensures
            out@ == self@.canonical(),
    {
        self.id.to_hex().concat(":").concat(self.name.as_str()).concat(":").concat(
            self.permission.as_str(),
        )
    }
}

} // verus!
