//! Baby-step giant-step recovery of small discrete logarithms, used to
//! decode a balance from its group-element form at settlement time.

use crate::bytes::bytes32_eq;
use crate::elgamal::{elgamal_dec, ElgamalCt};
use crate::err::ProtocolError;
use crate::group::{
    base_mul, canonical_of, group_order, lemma_group_elt_wf, madd, mmul, mneg, point_add, point_dl,
    scalar_from_u32, scalar_neg, GroupElt, Scal,
};
use crate::modp::{lemma_msmall, lemma_step_value};
use vstd::prelude::*;

verus! {

/// The baby-step table: the encodings of `0*G .. (m-1)*G` for a block size
/// `m` one past the integer square root of the bound, and the giant step
/// `(-m)*G`.
pub struct DlogTable {
    m: u32,
    max_points: u32,
    entries: Vec<[u8; 32]>,
    neg_step: GroupElt,
}

impl DlogTable {
    #[verifier::type_invariant]
    pub closed spec fn inv(self) -> bool {
        &&& 1 <= self.m <= 0x8001
        &&& self.max_points <= 0x40000000
        &&& (self.m - 1) * (self.m - 1) <= self.max_points < self.m * self.m
        &&& self.entries.len() == self.m
        &&& forall|j: int|
            0 <= j < self.m ==> self.entries[j]@ == canonical_of(j as nat) && point_dl(
                #[trigger] self.entries[j]@,
            ) == j
        &&& self.neg_step.dl() == mneg(self.m as nat)
    }

    /// The bound the table was built for.
    pub closed spec fn max(self) -> nat {
        self.max_points as nat
    }

    /// The bound the table was built for, read back.
    pub fn max_points(&self) -> (r: u32)
        ensures
            r == self.max(),
    {
        self.max_points
    }

    /// Scan the baby steps for an encoding; a hit names the discrete
    /// logarithm of the sought element.
    fn find(&self, enc: &[u8; 32]) -> (r: Option<u32>)
        requires
            self.inv(),
        ensures
            r matches Some(j) ==> (j < self.m && enc@ == canonical_of(j as nat) && point_dl(enc@)
                == j),
            r is None ==> forall|j: int| 0 <= j < self.m ==> #[trigger] canonical_of(j as nat) != enc@,
    {
        let n = self.entries.len();
        let mut i: usize = 0;
        while i < n
            invariant
                self.inv(),
                n == self.entries.len(),
                0 <= i <= n,
                forall|j: int| 0 <= j < i ==> #[trigger] canonical_of(j as nat) != enc@,
            decreases n - i,
        {
            if bytes32_eq(&self.entries[i], enc) {
                proof {
                    assert(self.entries[i as int]@ =~= enc@);
                }
                return Some(i as u32);
            }
            i = i + 1;
        }
        None
    }
}

/// Build the baby-step table for discrete logarithms up to `max_points`.
pub fn create_dlog_table(max_points: u32) -> (r: DlogTable)
    requires
        max_points <= 0x40000000,
    ensures
        r.max() == max_points,
{
    // Block size: one past the integer square root of the bound. The square
    // of each candidate is maintained incrementally.
    let mut s: u32 = 0;
    let mut sq: u64 = 1;
    while sq <= max_points as u64
        invariant
            max_points <= 0x40000000,
            s * s <= max_points,
            s <= 0x8000,
            sq == (s + 1) * (s + 1),
        decreases max_points - s * s,
    {
        proof {
            assert((s + 1) * (s + 1) > s * s) by (nonlinear_arith);
            assert(s + 1 <= 0x8000) by (nonlinear_arith)
                requires
                    (s + 1) * (s + 1) <= 0x40000000,
            ;
            assert((s + 2) * (s + 2) == (s + 1) * (s + 1) + 2 * (s + 1) + 1) by (nonlinear_arith);
        }
        s = s + 1;
        sq = sq + 2 * (s as u64) + 1;
    }
    let m: u32 = s + 1;
    proof {
        assert(m * m > max_points);
        assert((m - 1) * (m - 1) <= max_points);
    }

    let mut entries: Vec<[u8; 32]> = Vec::new();
    let one = scalar_from_u32(1);
    let g1 = base_mul(&one);
    let zero = scalar_from_u32(0);
    let mut cur = base_mul(&zero);
    let mut j: u32 = 0;
    while j < m
        invariant
            m <= 0x10001,
            0 <= j <= m,
            cur.dl() == j,
            g1.dl() == 1,
            entries.len() == j,
            forall|k: int|
                0 <= k < j ==> entries[k]@ == canonical_of(k as nat) && point_dl(
                    #[trigger] entries[k]@,
                ) == k,
        decreases m - j,
    {
        proof {
            use_type_invariant(&cur);
            lemma_group_elt_wf(cur);
        }
        entries.push(cur.encode());
        proof {
            assert(entries[j as int]@ == canonical_of(j as nat));
            assert(point_dl(entries[j as int]@) == j);
        }
        let next = point_add(&cur, &g1);
        proof {
            lemma_msmall((j + 1) as nat);
        }
        cur = next;
        j = j + 1;
    }

    let neg_m = scalar_neg(&scalar_from_u32(m));
    let neg_step = base_mul(&neg_m);
    DlogTable { m, max_points, entries, neg_step }
}

/// Whether the discrete logarithm `d` falls outside the giant-step window
/// that starts at `ii * m`.
pub open spec fn window_miss(d: nat, ii: int, m: nat) -> bool {
    !(ii * m <= d < ii * m + m)
}

/// Recover the discrete logarithm of `gx` by baby-step giant-step: exactly
/// the elements whose logarithm lies at or below the table's bound are
/// recovered, and the logarithm comes back unchanged; all others are out of
/// range.
pub fn dlog_base_g(table: &DlogTable, gx: &GroupElt) -> (r: Result<i32, ProtocolError>)
    ensures
        r matches Ok(k) ==> (0 <= k && gx.dl() == k as nat && k <= table.max()),
        r is Ok <==> gx.dl() <= table.max(),
        r is Err ==> r == Err::<i32, ProtocolError>(ProtocolError::OutOfRange),
{
    proof {
        use_type_invariant(table);
        use_type_invariant(gx);
        lemma_group_elt_wf(*gx);
    }
    let ghost d = gx.dl();
    let m = table.m;
    let mut gamma = *gx;
    let mut i: u32 = 0;
    while i < m
        invariant
            table.inv(),
            gx.dl() == d,
            d < group_order(),
            0 <= i <= m,
            1 <= m <= 0x8001,
            m == table.m,
            gamma.dl() == madd(d, mneg((i * m) as nat)),
            forall|ii: int| 0 <= ii < i ==> #[trigger] window_miss(d, ii, m as nat),
        decreases m - i,
    {
        proof {
            use_type_invariant(&gamma);
            lemma_group_elt_wf(gamma);
            assert(i * m < 0x100000000 && i * m + m < group_order()) by (nonlinear_arith)
                requires
                    0 <= i < m <= 0x8001,
                    group_order() > 0x100000000,
            ;
            lemma_step_value(d, (i * m) as nat);
        }
        let genc = gamma.encode();
        match table.find(&genc) {
            Some(j) => {
                proof {
                    // A hit pins gamma's logarithm to j, so d sits in the
                    // current giant-step window.
                    assert(gamma.dl() == j);
                    if d < i * m {
                        assert(gamma.dl() == d + group_order() - i * m);
                        assert(d + group_order() - i * m >= group_order() - 0x100000000);
                        assert(false);
                    }
                    assert(d - i * m == j);
                    assert(i * m + j < 0x40010001 && d < m * m) by (nonlinear_arith)
                        requires
                            0 <= i < m,
                            0 <= j < m,
                            m <= 0x8001,
                            d == i * m + j,
                    ;
                }
                let k: u32 = i * m + j;
                if k > table.max_points {
                    return Err(ProtocolError::OutOfRange);
                }
                return Ok(k as i32);
            },
            None => {
                proof {
                    // No hit: d is not in the current window.
                    assert(window_miss(d, i as int, m as nat)) by {
                        if i * m <= d < i * m + m {
                            assert(gamma.dl() == d - i * m);
                            let jj = gamma.dl() as int;
                            assert(0 <= jj < m);
                            assert(canonical_of(jj as nat) != gamma.enc());
                            assert(canonical_of(gamma.dl()) == gamma.enc());
                            assert(false);
                        }
                    }
                }
                let next = point_add(&gamma, &table.neg_step);
                proof {
                    use_type_invariant(&gamma);
                    // The step subtracts m more from the tracked logarithm.
                    assert(((i + 1) * m) as nat == (i * m + m) as nat) by (nonlinear_arith);
                    lemma_step_value(d, (i * m) as nat);
                    lemma_step_value(d, ((i + 1) * m) as nat);
                    lemma_step_value(gamma.dl(), m as nat);
                    assert(i * m + m < group_order());
                    if i * m <= d {
                        assert(gamma.dl() == d - i * m);
                        if d >= i * m + m {
                            assert(madd(gamma.dl(), mneg(m as nat)) == d - i * m - m);
                            assert(madd(d, mneg(((i + 1) * m) as nat)) == d - (i * m + m));
                        } else {
                            assert(madd(gamma.dl(), mneg(m as nat)) == gamma.dl() + group_order()
                                - m);
                            assert(madd(d, mneg(((i + 1) * m) as nat)) == d + group_order() - (i
                                * m + m));
                        }
                    } else {
                        assert(gamma.dl() == d + group_order() - i * m);
                        assert(gamma.dl() >= group_order() - 0x100000000);
                        assert(m <= gamma.dl());
                        assert(madd(gamma.dl(), mneg(m as nat)) == gamma.dl() - m);
                        assert(madd(d, mneg(((i + 1) * m) as nat)) == d + group_order() - (i * m
                            + m));
                    }
                }
                gamma = next;
                i = i + 1;
            },
        }
    }
    proof {
        // Every window was scanned empty, so d lies at or beyond m * m.
        if d < (m * m) as nat {
            let di = d as int;
            let mi = m as int;
            let q = di / mi;
            let rm = di % mi;
            vstd::arithmetic::div_mod::lemma_fundamental_div_mod(di, mi);
            vstd::arithmetic::mul::lemma_mul_is_commutative(mi, q);
            assert(q * mi < mi * mi) by (nonlinear_arith)
                requires
                    di == q * mi + rm,
                    0 <= rm,
                    di < mi * mi,
            ;
            assert(0 <= q < mi) by (nonlinear_arith)
                requires
                    q * mi < mi * mi,
                    mi >= 1,
                    di == q * mi + rm,
                    rm < mi,
                    di >= 0,
            ;
            assert(!window_miss(d, q, m as nat)) by {
                assert(q * m <= d < q * m + m);
            }
            assert(false);
        }
    }
    Err(ProtocolError::OutOfRange)
}

/// Decrypt a semi-honest balance ciphertext down to its number of points:
/// ElGamal decryption yields the balance in the exponent, which baby-step
/// giant-step recovers when it lies at or below the table's bound.
pub fn elgamal_dec_amount(table: &DlogTable, sk: &Scal, ct: &ElgamalCt) -> (r: Result<
    i32,
    ProtocolError,
>)
    ensures
        r matches Ok(k) ==> 0 <= k && madd(ct.1.dl(), mmul(ct.0.dl(), mneg(sk.val())))
            == k as nat && k <= table.max(),
        r is Ok <==> madd(ct.1.dl(), mmul(ct.0.dl(), mneg(sk.val()))) <= table.max(),
        r is Err ==> r == Err::<i32, ProtocolError>(ProtocolError::OutOfRange),
{
    let mg = elgamal_dec(sk, ct);
    dlog_base_g(table, &mg)
}

} // verus!
