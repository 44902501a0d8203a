//! Keys by which the stores find records.

use vstd::prelude::*;

verus! {

/// How a caller names a record: by its primary key, by its secondary key,
/// or by both.
#[derive(Clone, Copy, Debug, PartialEq, Eq)]
pub enum Key<PK, SK> {
    Pk(PK),
    Sk(SK),
    Both(PK, SK),
}

impl<PK, SK> Key<PK, SK> {
    /// The primary key that the key names, if it names one.
    pub open spec fn primary(self) -> Option<PK> {
        match self {
            Key::Pk(pk) => Some(pk),
            Key::Sk(_) => None,
            Key::Both(pk, _) => Some(pk),
        }
    }

    /// The secondary key that the key names, if it names one.
    pub open spec fn secondary(self) -> Option<SK> {
        match self {
            Key::Pk(_) => None,
            Key::Sk(sk) => Some(sk),
            Key::Both(_, sk) => Some(sk),
        }
    }
}

} // verus!
