use vstd::prelude::*;

verus! {

/// The marker that OpenSSH certificate key types carry, as bytes:
/// `-cert-v01@openssh.com`.
pub open spec fn spec_cert_marker() -> Seq<u8> {
    seq![
        45u8, 99u8, 101u8, 114u8, 116u8, 45u8, 118u8, 48u8, 49u8, 64u8, 111u8, 112u8, 101u8,
        110u8, 115u8, 115u8, 104u8, 46u8, 99u8, 111u8, 109u8,
    ]
}

/// Whether `content` contains the certificate marker as a contiguous run of
/// bytes.
pub open spec fn spec_contains_marker(content: Seq<u8>) -> bool {
    exists|i: int|
        0 <= i && i + spec_cert_marker().len() <= content.len() && (#[trigger] content.subrange(
            i,
            i + spec_cert_marker().len(),
        )) == spec_cert_marker()
}

/// The certificate marker as an executable value.
fn cert_marker() -> (m: Vec<u8>)
    ensures
        m@ == spec_cert_marker(),
{
    let m: Vec<u8> = vec![
        45u8, 99u8, 101u8, 114u8, 116u8, 45u8, 118u8, 48u8, 49u8, 64u8, 111u8, 112u8, 101u8,
        110u8, 115u8, 115u8, 104u8, 46u8, 99u8, 111u8, 109u8,
    ];
    proof {
        assert(m@ =~= spec_cert_marker());
    }
    m
}

/// Whether `content` looks like an OpenSSH certificate: a plain substring
/// test for the certificate marker, not any cryptographic validation.
pub fn contains_cert_marker(content: &Vec<u8>) -> (r: bool)
    ensures
        r == spec_contains_marker(content@),
{
    let marker = cert_marker();
    let m = marker.len();
    let n = content.len();
    proof {
        assert(spec_cert_marker().len() == 21);
    }
    if n < m {
        proof {
            assert(!spec_contains_marker(content@)) by {
                if spec_contains_marker(content@) {
                    let w = choose|i: int|
                        0 <= i && i + spec_cert_marker().len() <= content@.len() && (
                        #[trigger] content@.subrange(i, i + spec_cert_marker().len()))
                            == spec_cert_marker();
                    assert(w + 21 <= content@.len());
                    assert(false);
                }
            }
        }
        return false;
    }
    let mut i: usize = 0;
    while i <= n - m
        invariant
            m == spec_cert_marker().len(),
            marker@ == spec_cert_marker(),
            n == content@.len(),
            m <= n,
            0 <= i <= n,
            forall|k: int|
                0 <= k < i ==> (#[trigger] content@.subrange(k, k + spec_cert_marker().len()))
                    != spec_cert_marker(),
        decreases n - i,
    {
        let mut j: usize = 0;
        let mut matched = true;
        while j < m
            invariant
                m == spec_cert_marker().len(),
                marker@ == spec_cert_marker(),
                n == content@.len(),
                i + m <= n,
                0 <= j <= m,
                !matched ==> j == m,
                matched <==> (forall|k: int|
                    0 <= k < j ==> content@[i as int + k] == spec_cert_marker()[k]),
            decreases m - j,
        {
            if content[i + j] != marker[j] {
                proof {
                    assert(content@[i as int + j as int] != spec_cert_marker()[j as int]);
                }
                matched = false;
                j = m;
            } else {
                proof {
                    assert forall|k: int| 0 <= k < j as int + 1 implies content@[i as int + k]
                        == spec_cert_marker()[k] by {
                        if k == j as int {
                            assert(content@[i as int + k] == spec_cert_marker()[k]);
                        }
                    }
                }
                j = j + 1;
            }
        }
        if matched {
            proof {
                assert(content@.subrange(i as int, i as int + spec_cert_marker().len())
                    =~= spec_cert_marker());
            }
            return true;
        }
        proof {
            assert(content@.subrange(i as int, i as int + spec_cert_marker().len())
                != spec_cert_marker()) by {
                if content@.subrange(i as int, i as int + spec_cert_marker().len())
                    == spec_cert_marker() {
                    assert forall|k: int| 0 <= k < spec_cert_marker().len() implies content@[
                        i as int + k] == spec_cert_marker()[k] by {
                        assert(content@.subrange(i as int, i as int + spec_cert_marker().len())[k]
                            == content@[i as int + k]);
                    }
                    assert(false);
                }
            }
            assert forall|k: int|
                0 <= k < i as int + 1 implies (#[trigger] content@.subrange(
                k,
                k + spec_cert_marker().len(),
            )) != spec_cert_marker() by {}
        }
        i = i + 1;
    }
    proof {
        assert(!spec_contains_marker(content@)) by {
            if spec_contains_marker(content@) {
                let w = choose|q: int|
                    0 <= q && q + spec_cert_marker().len() <= content@.len() && (
                    #[trigger] content@.subrange(q, q + spec_cert_marker().len()))
                        == spec_cert_marker();
                assert(w < i as int);
                assert(false);
            }
        }
    }
    false
}

} // verus!
