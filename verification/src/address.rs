use vstd::prelude::*;

verus! {

/// A transfer endpoint: either an account identity or a contract identity,
/// each a 32-byte hash.  The view of an address is its canonical byte
/// serialization — a tag byte (0 for an account, 1 for a contract) followed
/// by the 32 identity bytes — so two addresses are the same endpoint exactly
/// when their views are equal.
#[derive(Clone, Copy, Debug)]
pub enum Address {
    Account([u8; 32]),
    Contract([u8; 32]),
}

impl View for Address {
    type V = Seq<u8>;

    open spec fn view(&self) -> Seq<u8> {
        match *self {
            Address::Account(h) => seq![0u8] + h@,
            Address::Contract(h) => seq![1u8] + h@,
        }
    }
}

impl Address {
    /// Canonical serialization: the view, as concrete bytes.  Always 33
    /// bytes for either variant.
    pub fn to_bytes(&self) -> (r: Vec<u8>)
        ensures
            r@ == self@,
            r@.len() == 33,
    {
        let mut out: Vec<u8> = Vec::new();
        let h: &[u8; 32] = match self {
            Address::Account(h) => {
                out.push(0u8);
                h
            },
            Address::Contract(h) => {
                out.push(1u8);
                h
            },
        };
        proof {
            assert(h@ =~= self@.subrange(1, 33));
            assert(out@ =~= self@.subrange(0, 1));
        }
        let mut i: usize = 0;
        while i < 32
            invariant
                i <= 32,
                self@.len() == 33,
                h@ == self@.subrange(1, 33),
                out@ == self@.subrange(0, 1 + i as int),
            decreases 32 - i,
        {
            out.push(h[i]);
            proof {
                assert(out@ =~= self@.subrange(0, 1 + (i + 1) as int));
            }
            i = i + 1;
        }
        proof {
            assert(out@ =~= self@);
        }
        out
    }
}

/// Whether two 32-byte identities hold the same bytes.
fn bytes32_eq(a: &[u8; 32], b: &[u8; 32]) -> (r: bool)
    ensures
        r == (a@ == b@),
{
    let mut i: usize = 0;
    while i < 32
        invariant
            i <= 32,
            forall|j: int| 0 <= j < i ==> a@[j] == b@[j],
        decreases 32 - i,
    {
        if a[i] != b[i] {
            return false;
        }
        i = i + 1;
    }
    proof {
        assert(a@ =~= b@);
    }
    true
}

/// Whether two addresses are the same endpoint, that is, whether their
/// canonical serializations agree.
pub fn addr_eq(a: &Address, b: &Address) -> (r: bool)
    ensures
        r == (a@ == b@),
{
    match (a, b) {
        (Address::Account(x), Address::Account(y)) => {
            let r = bytes32_eq(x, y);
            proof {
                if x@ == y@ {
                    assert(a@ =~= b@);
                } else {
                    assert(a@.subrange(1, 33) =~= x@);
                    assert(b@.subrange(1, 33) =~= y@);
                }
            }
            r
        },
        (Address::Contract(x), Address::Contract(y)) => {
            let r = bytes32_eq(x, y);
            proof {
                if x@ == y@ {
                    assert(a@ =~= b@);
                } else {
                    assert(a@.subrange(1, 33) =~= x@);
                    assert(b@.subrange(1, 33) =~= y@);
                }
            }
            r
        },
        _ => {
            proof {
                assert(a@[0] != b@[0]);
            }
            false
        },
    }
}

} // verus!
