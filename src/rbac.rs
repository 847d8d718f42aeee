use vstd::prelude::*;
use vstd::utf8::encode_utf8_decode_utf8;

verus! {

/// Access roles of a program escrow.
#[derive(Clone, Copy, Debug, PartialEq, Eq, Structural)]
pub enum Role {
    Admin,
    Operator,
    Pauser,
    Viewer,
}

/// The name of a role.
pub open spec fn role_name(r: Role) -> Seq<char> {
    match r {
        Role::Admin => "Admin"@,
        Role::Operator => "Operator"@,
        Role::Pauser => "Pauser"@,
        Role::Viewer => "Viewer"@,
    }
}

/// The role with name `s`, if there is one.
pub open spec fn role_named(s: Seq<char>) -> Option<Role> {
    if s == "Admin"@ {
        Some(Role::Admin)
    } else if s == "Operator"@ {
        Some(Role::Operator)
    } else if s == "Pauser"@ {
        Some(Role::Pauser)
    } else if s == "Viewer"@ {
        Some(Role::Viewer)
    } else {
        None
    }
}

/// Whether two byte slices hold the same bytes.
fn same_bytes(a: &[u8], b: &[u8]) -> (r: bool)
    ensures
        r == (a@ == b@),
{
    if a.len() != b.len() {
        return false;
    }
    let mut i: usize = 0;
    while i < a.len()
        invariant
            a@.len() == b@.len(),
            i <= a@.len(),
            forall|k: int| 0 <= k < i ==> a@[k] == b@[k],
        decreases a@.len() - i,
    {
        if a[i] != b[i] {
            return false;
        }
        i = i + 1;
    }
    proof {
        assert(a@ =~= b@);
    }
    true
}

/// Whether `s` is exactly the string `lit`.
fn is_named(s: &str, lit: &str) -> (r: bool)
    ensures
        r == (s@ == lit@),
{
    let r = same_bytes(s.as_bytes(), lit.as_bytes());
    proof {
        encode_utf8_decode_utf8(s@);
        encode_utf8_decode_utf8(lit@);
    }
    r
}

impl Role {
    /// The role's name.
    pub fn as_str(self) -> (r: &'static str)
        ensures
            r@ == role_name(self),
    {
        match self {
            Role::Admin => "Admin",
            Role::Operator => "Operator",
            Role::Pauser => "Pauser",
            Role::Viewer => "Viewer",
        }
    }

    /// The role whose name is `s`, if any.
    pub fn from_str(s: &str) -> (r: Option<Role>)
        ensures
            r == role_named(s@),
    {
        if is_named(s, "Admin") {
            Some(Role::Admin)
        } else if is_named(s, "Operator") {
            Some(Role::Operator)
        } else if is_named(s, "Pauser") {
            Some(Role::Pauser)
        } else if is_named(s, "Viewer") {
            Some(Role::Viewer)
        } else {
            None
        }
    }
}

/// Reading back a role's name gives the role.
pub proof fn role_name_round_trip(r: Role)
    ensures
        role_named(role_name(r)) == Some(r),
{
    reveal_strlit("Admin");
    reveal_strlit("Operator");
    reveal_strlit("Pauser");
    reveal_strlit("Viewer");
    assert("Admin"@.len() != "Operator"@.len());
    assert("Admin"@[0] != "Pauser"@[0]);
    assert("Admin"@[0] != "Viewer"@[0]);
    assert("Operator"@.len() != "Pauser"@.len());
    assert("Operator"@.len() != "Viewer"@.len());
    assert("Pauser"@[0] != "Viewer"@[0]);
}

} // verus!
