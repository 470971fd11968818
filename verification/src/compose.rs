//! The context composer.
//!
//! The byte string handed to the transform is the concatenation, with no
//! separators, of the optional secondary secret, the optional username and
//! the domain — in that fixed order.  Changing the order or inserting
//! separators would silently change every derived password, so the order is
//! part of the contract.

use vstd::prelude::*;
use vstd::string::StrSliceExecFns;
use vstd::string::StringSliceAdditionalSpecFns;

verus! {

/// The bytes of an optional byte-string argument; absent means empty.
pub open spec fn opt_slice_bytes(o: Option<&[u8]>) -> Seq<u8> {
    match o {
        Option::Some(s) => s@,
        Option::None => Seq::<u8>::empty(),
    }
}

/// The UTF-8 bytes of an optional string argument; absent means empty.
pub open spec fn opt_str_bytes(o: Option<&str>) -> Seq<u8> {
    match o {
        Option::Some(s) => s.spec_bytes(),
        Option::None => Seq::<u8>::empty(),
    }
}

/// The composed input: secondary secret first, then username, domain last,
/// with no separators.
pub open spec fn compose_spec(secondary: Seq<u8>, username: Seq<u8>, domain: Seq<u8>) -> Seq<u8> {
    secondary + username + domain
}

/// Build the byte string fed to the transform from the secondary secret, the
/// username and the domain.
pub fn compose_input(secondary_secret: Option<&[u8]>, username: Option<&str>, domain: &str) -> (r:
    Vec<u8>)
    ensures
        r@ == compose_spec(
            opt_slice_bytes(secondary_secret),
            opt_str_bytes(username),
            domain.spec_bytes(),
        ),
{
    let mut out: Vec<u8> = Vec::new();
    match secondary_secret {
        Option::Some(s) => {
            let mut part = vstd::slice::slice_to_vec(s);
            out.append(&mut part);
        },
        Option::None => {},
    }
    match username {
        Option::Some(u) => {
            let mut part = u.as_bytes_vec();
            out.append(&mut part);
        },
        Option::None => {},
    }
    let mut tail = domain.as_bytes_vec();
    out.append(&mut tail);
    proof {
        assert(out@ =~= compose_spec(
            opt_slice_bytes(secondary_secret),
            opt_str_bytes(username),
            domain.spec_bytes(),
        ));
    }
    out
}

} // verus!
