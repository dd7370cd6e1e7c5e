//! The batched settlement Sigma-protocol `zk_settle`: an n-fold Fiat-Shamir
//! argument tying a claimed public balance and the server's stored group
//! element to the per-transaction masked amounts, over per-transaction
//! independent bases. The cross-base aggregate is summed as group elements,
//! never as a single scalar multiple of the fixed basepoint.

use crate::bytes::push_bytes32;
use crate::group::{
    base_mul, canonical_of, group_hash_dl, h_label, h_point, hash_scalar_val, hash_to_scalar,
    int_to_scalar, lemma_group_elt_wf, madd, mmul, point_add, point_mul, pt_eq, random_scalar,
    scalar_add, scalar_from_u32, scalar_mul, scalar_of_int, u_label, u_point, GroupElt, Scal,
};
use crate::modp::{
    lemma_madd4, lemma_madd_zero, lemma_mmul_distrib_right, lemma_mmul_xchg, lemma_mmul_zero,
    lemma_sigma_affine, lemma_sigma_linear,
};
use vstd::prelude::*;

verus! {

/// One transaction's share of a settlement proof: the auxiliary and blinded
/// commitments and the five responses.
#[derive(Clone, Copy)]
pub struct SettleBlock {
    /// Commitment to the blinding exponent `y`.
    pub v: GroupElt,
    /// Commitment to `y` and `m` under the two bases.
    pub e: GroupElt,
    /// `v` raised to the amount.
    pub vx: GroupElt,
    /// `e` raised to the amount.
    pub ex: GroupElt,
    /// Blinded commitment for the masked-mask equation.
    pub b_mt: GroupElt,
    /// Blinded commitment for the `v` equation.
    pub v_t: GroupElt,
    /// Blinded commitment for the `e` equation.
    pub e_t: GroupElt,
    /// Blinded commitment for the `vx` equation.
    pub vx_t: GroupElt,
    /// Blinded commitment for the `ex` equation.
    pub ex_t: GroupElt,
    /// Response for the mask.
    pub m_z: Scal,
    /// Response for the amount.
    pub x_z: Scal,
    /// Response for the product `m*x`.
    pub a_z: Scal,
    /// Response for the blinding `y`.
    pub y_z: Scal,
    /// Response for the product blinding `t`.
    pub t_z: Scal,
}

/// A settlement proof: the two aggregate commitments and one block per
/// transaction.
pub struct SettleProof {
    /// Blinded commitment for the claimed balance.
    pub b1_t: GroupElt,
    /// Blinded cross-base aggregate, summed as group elements.
    pub b2_t: GroupElt,
    /// The per-transaction blocks.
    pub blocks: Vec<SettleBlock>,
}

/// The bytes one transaction contributes to the challenge transcript.
pub open spec fn settle_block_bytes(b_m: GroupElt, blk: SettleBlock) -> Seq<u8> {
    b_m.enc() + blk.v_t.enc() + blk.e_t.enc() + blk.vx_t.enc() + blk.ex_t.enc()
}

/// The challenge transcript of the first `n` transactions: the encodings of
/// the balance commitment `b1` (the basepoint raised to `xd`), the stored
/// balance, and each transaction's masked mask and blinded commitments, in
/// this fixed order.
pub open spec fn settle_transcript(
    xd: nat,
    bal: GroupElt,
    b_ms: Seq<GroupElt>,
    blocks: Seq<SettleBlock>,
    n: int,
) -> Seq<u8>
    decreases n,
{
    if n <= 0 {
        canonical_of(xd) + bal.enc()
    } else {
        settle_transcript(xd, bal, b_ms, blocks, n - 1) + settle_block_bytes(
            b_ms[n - 1],
            blocks[n - 1],
        )
    }
}

/// The sum of the first `n` amount responses, modulo the group order.
pub open spec fn sum_xz(blocks: Seq<SettleBlock>, n: int) -> nat
    decreases n,
{
    if n <= 0 {
        0
    } else {
        madd(sum_xz(blocks, n - 1), blocks[n - 1].x_z.val())
    }
}

/// The discrete logarithm of the verifier's cross-base aggregate: each base
/// raised to its product response, summed as group elements.
pub open spec fn sum_agz(gds: Seq<nat>, blocks: Seq<SettleBlock>, n: int) -> nat
    decreases n,
{
    if n <= 0 {
        0
    } else {
        madd(sum_agz(gds, blocks, n - 1), mmul(gds[n - 1], blocks[n - 1].a_z.val()))
    }
}

/// The sum of the first `n` scalars, modulo the group order.
pub open spec fn sum_sv(xs: Seq<Scal>, n: int) -> nat
    decreases n,
{
    if n <= 0 {
        0
    } else {
        madd(sum_sv(xs, n - 1), xs[n - 1].val())
    }
}

/// The discrete logarithm of an honestly accumulated balance: each base
/// raised to its amount times its mask, summed as group elements.
pub open spec fn sum_gmx(gds: Seq<nat>, xs: Seq<Scal>, ms: Seq<Scal>, n: int) -> nat
    decreases n,
{
    if n <= 0 {
        0
    } else {
        madd(sum_gmx(gds, xs, ms, n - 1), mmul(gds[n - 1], mmul(xs[n - 1].val(), ms[n - 1].val())))
    }
}

/// The discrete logarithms of a list of group elements.
pub open spec fn dls_of(gs: Seq<GroupElt>) -> Seq<nat> {
    Seq::new(gs.len(), |j: int| gs[j].dl())
}

/// The five per-transaction verification equations, over the discrete
/// logarithms of one block's points and the challenge.
pub open spec fn settle_tx_eqs(gd: nat, b_m: GroupElt, blk: SettleBlock, c: nat) -> bool {
    let h = group_hash_dl(h_label());
    let u = group_hash_dl(u_label());
    &&& mmul(h, blk.m_z.val()) == madd(blk.b_mt.dl(), mmul(b_m.dl(), c))
    &&& mmul(gd, blk.y_z.val()) == madd(blk.v_t.dl(), mmul(blk.v.dl(), c))
    &&& madd(mmul(u, blk.y_z.val()), mmul(gd, blk.m_z.val())) == madd(
        blk.e_t.dl(),
        mmul(blk.e.dl(), c),
    )
    &&& mmul(gd, blk.t_z.val()) == madd(blk.vx_t.dl(), mmul(blk.vx.dl(), c))
    &&& madd(mmul(u, blk.t_z.val()), mmul(gd, blk.a_z.val())) == madd(
        blk.ex_t.dl(),
        mmul(blk.ex.dl(), c),
    )
}

/// All the verification equations of a settlement proof: the two aggregate
/// checks and the five per-transaction checks of every block.
pub open spec fn settle_check(
    x: i32,
    bal: GroupElt,
    b_ms: Seq<GroupElt>,
    gds: Seq<nat>,
    pi: SettleProof,
) -> bool {
    let n = b_ms.len() as int;
    let c = hash_scalar_val(settle_transcript(scalar_of_int(x as int), bal, b_ms, pi.blocks@, n));
    &&& pi.blocks@.len() == n
    &&& gds.len() == n
    &&& sum_xz(pi.blocks@, n) == madd(pi.b1_t.dl(), mmul(scalar_of_int(x as int), c))
    &&& sum_agz(gds, pi.blocks@, n) == madd(pi.b2_t.dl(), mmul(bal.dl(), c))
    &&& forall|j: int| 0 <= j < n ==> settle_tx_eqs(gds[j], b_ms[j], #[trigger] pi.blocks@[j], c)
}

/// One transaction's commitments, before the challenge is known.
struct SettleCommit {
    v: GroupElt,
    e: GroupElt,
    vx: GroupElt,
    ex: GroupElt,
    b_mt: GroupElt,
    v_t: GroupElt,
    e_t: GroupElt,
    vx_t: GroupElt,
    ex_t: GroupElt,
}

/// One transaction's secret commitment exponents.
struct SettleWit {
    a: Scal,
    y: Scal,
    t: Scal,
    m_t: Scal,
    x_t: Scal,
    a_t: Scal,
    y_t: Scal,
    t_t: Scal,
}

/// How one transaction's commitments arise from its base, mask, amount and
/// witnesses.
spec fn block_wf(gd: nat, m: Scal, x: Scal, cm: SettleCommit, w: SettleWit) -> bool {
    let h = group_hash_dl(h_label());
    let u = group_hash_dl(u_label());
    &&& w.a.val() == mmul(x.val(), m.val())
    &&& w.t.val() == mmul(x.val(), w.y.val())
    &&& cm.v.dl() == mmul(gd, w.y.val())
    &&& cm.e.dl() == madd(mmul(u, w.y.val()), mmul(gd, m.val()))
    &&& cm.vx.dl() == mmul(cm.v.dl(), x.val())
    &&& cm.ex.dl() == mmul(cm.e.dl(), x.val())
    &&& cm.b_mt.dl() == mmul(h, w.m_t.val())
    &&& cm.v_t.dl() == mmul(gd, w.y_t.val())
    &&& cm.e_t.dl() == madd(mmul(u, w.y_t.val()), mmul(gd, w.m_t.val()))
    &&& cm.vx_t.dl() == mmul(gd, w.t_t.val())
    &&& cm.ex_t.dl() == madd(mmul(u, w.t_t.val()), mmul(gd, w.a_t.val()))
}

/// How one block's fields arise from its commitments, witnesses, amount and
/// the challenge.
spec fn block_resp(blk: SettleBlock, cm: SettleCommit, w: SettleWit, x: Scal, c: nat) -> bool {
    &&& blk.v == cm.v
    &&& blk.e == cm.e
    &&& blk.vx == cm.vx
    &&& blk.ex == cm.ex
    &&& blk.b_mt == cm.b_mt
    &&& blk.v_t == cm.v_t
    &&& blk.e_t == cm.e_t
    &&& blk.vx_t == cm.vx_t
    &&& blk.ex_t == cm.ex_t
    &&& blk.x_z.val() == madd(w.x_t.val(), mmul(x.val(), c))
    &&& blk.a_z.val() == madd(w.a_t.val(), mmul(w.a.val(), c))
}

/// The sum of the blinded amount exponents of the first `n` witnesses.
spec fn sum_wxt(wits: Seq<SettleWit>, n: int) -> nat
    decreases n,
{
    if n <= 0 {
        0
    } else {
        madd(sum_wxt(wits, n - 1), wits[n - 1].x_t.val())
    }
}

/// The discrete logarithm of the blinded cross-base aggregate of the first
/// `n` witnesses.
spec fn sum_gat(gds: Seq<nat>, wits: Seq<SettleWit>, n: int) -> nat
    decreases n,
{
    if n <= 0 {
        0
    } else {
        madd(sum_gat(gds, wits, n - 1), mmul(gds[n - 1], wits[n - 1].a_t.val()))
    }
}

/// Commit to one transaction: draw the blinding exponents and form the
/// auxiliary and blinded commitments over its base.
fn settle_commit(g: &GroupElt, m: &Scal, x: &Scal) -> (r: (SettleCommit, SettleWit))
    ensures
        block_wf(g.dl(), *m, *x, r.0, r.1),
{
    let u = u_point();
    let h = h_point();
    let a = scalar_mul(x, m);
    let y = random_scalar();
    let t = scalar_mul(x, &y);
    let v = point_mul(g, &y);
    let e = point_add(&point_mul(&u, &y), &point_mul(g, m));
    let vx = point_mul(&v, x);
    let ex = point_mul(&e, x);
    let m_t = random_scalar();
    let x_t = random_scalar();
    let a_t = random_scalar();
    let y_t = random_scalar();
    let t_t = random_scalar();
    let cm = SettleCommit {
        v,
        e,
        vx,
        ex,
        b_mt: point_mul(&h, &m_t),
        v_t: point_mul(g, &y_t),
        e_t: point_add(&point_mul(&u, &y_t), &point_mul(g, &m_t)),
        vx_t: point_mul(g, &t_t),
        ex_t: point_add(&point_mul(&u, &t_t), &point_mul(g, &a_t)),
    };
    let w = SettleWit { a, y, t, m_t, x_t, a_t, y_t, t_t };
    (cm, w)
}

/// Equal commitment fields give equal transcripts.
proof fn lemma_transcript_from_commits(
    xd: nat,
    bal: GroupElt,
    b_ms: Seq<GroupElt>,
    cmts: Seq<SettleCommit>,
    blocks: Seq<SettleBlock>,
    t: Seq<u8>,
    n: int,
)
    requires
        n <= b_ms.len(),
        n <= cmts.len(),
        n <= blocks.len(),
        forall|j: int|
            0 <= j < n ==> {
                let blk = #[trigger] blocks[j];
                blk.v_t == cmts[j].v_t && blk.e_t == cmts[j].e_t && blk.vx_t == cmts[j].vx_t
                    && blk.ex_t == cmts[j].ex_t
            },
        t == commit_transcript(xd, bal, b_ms, cmts, n),
    ensures
        settle_transcript(xd, bal, b_ms, blocks, n) == t,
    decreases n,
{
    if n > 0 {
        lemma_transcript_from_commits(
            xd,
            bal,
            b_ms,
            cmts,
            blocks,
            commit_transcript(xd, bal, b_ms, cmts, n - 1),
            n - 1,
        );
    }
}

/// The transcript as the prover assembles it, over raw commitments.
spec fn commit_transcript(
    xd: nat,
    bal: GroupElt,
    b_ms: Seq<GroupElt>,
    cmts: Seq<SettleCommit>,
    n: int,
) -> Seq<u8>
    decreases n,
{
    if n <= 0 {
        canonical_of(xd) + bal.enc()
    } else {
        commit_transcript(xd, bal, b_ms, cmts, n - 1) + (b_ms[n - 1].enc() + cmts[n - 1].v_t.enc()
            + cmts[n - 1].e_t.enc() + cmts[n - 1].vx_t.enc() + cmts[n - 1].ex_t.enc())
    }
}

/// A transcript prefix depends only on the commitments it covers.
proof fn lemma_commit_transcript_grow(
    xd: nat,
    bal: GroupElt,
    b_ms: Seq<GroupElt>,
    old_c: Seq<SettleCommit>,
    new_c: Seq<SettleCommit>,
    n: int,
)
    requires
        n <= old_c.len(),
        n <= new_c.len(),
        n <= b_ms.len(),
        forall|j: int| 0 <= j < n ==> new_c[j] == old_c[j],
    ensures
        commit_transcript(xd, bal, b_ms, new_c, n) == commit_transcript(xd, bal, b_ms, old_c, n),
    decreases n,
{
    if n > 0 {
        lemma_commit_transcript_grow(xd, bal, b_ms, old_c, new_c, n - 1);
    }
}

/// The aggregate claimed-balance equation: summed responses answer the
/// summed blindings against the summed amounts.
proof fn lemma_b1_sum(
    blocks: Seq<SettleBlock>,
    wits: Seq<SettleWit>,
    xs: Seq<Scal>,
    c: nat,
    n: int,
)
    requires
        n <= blocks.len(),
        n <= wits.len(),
        n <= xs.len(),
        forall|j: int|
            0 <= j < n ==> (#[trigger] blocks[j]).x_z.val() == madd(
                wits[j].x_t.val(),
                mmul(xs[j].val(), c),
            ),
    ensures
        sum_xz(blocks, n) == madd(sum_wxt(wits, n), mmul(sum_sv(xs, n), c)),
    decreases n,
{
    if n <= 0 {
        lemma_mmul_zero(c);
        lemma_madd_zero(0);
    } else {
        lemma_b1_sum(blocks, wits, xs, c, n - 1);
        let sz = sum_xz(blocks, n - 1);
        let st = sum_wxt(wits, n - 1);
        let sx = sum_sv(xs, n - 1);
        let xt = wits[n - 1].x_t.val();
        let xv = xs[n - 1].val();
        lemma_madd4(st, mmul(sx, c), xt, mmul(xv, c));
        lemma_mmul_distrib_right(sx, xv, c);
        lemma_madd4(st, xt, mmul(sx, c), mmul(xv, c));
    }
}

/// The aggregate cross-base equation: base-wise summed responses answer the
/// blinded aggregate against the honestly accumulated balance.
proof fn lemma_b2_sum(
    gds: Seq<nat>,
    blocks: Seq<SettleBlock>,
    wits: Seq<SettleWit>,
    xs: Seq<Scal>,
    ms: Seq<Scal>,
    c: nat,
    n: int,
)
    requires
        n <= gds.len(),
        n <= blocks.len(),
        n <= wits.len(),
        n <= xs.len(),
        n <= ms.len(),
        forall|j: int|
            0 <= j < n ==> (#[trigger] blocks[j]).a_z.val() == madd(
                wits[j].a_t.val(),
                mmul(mmul(xs[j].val(), ms[j].val()), c),
            ),
    ensures
        sum_agz(gds, blocks, n) == madd(sum_gat(gds, wits, n), mmul(sum_gmx(gds, xs, ms, n), c)),
    decreases n,
{
    if n <= 0 {
        lemma_mmul_zero(c);
        lemma_madd_zero(0);
    } else {
        lemma_b2_sum(gds, blocks, wits, xs, ms, c, n - 1);
        let g = gds[n - 1];
        let az = blocks[n - 1].a_z.val();
        let at = wits[n - 1].a_t.val();
        let av = mmul(xs[n - 1].val(), ms[n - 1].val());
        let sz = sum_agz(gds, blocks, n - 1);
        let st = sum_gat(gds, wits, n - 1);
        let sb = sum_gmx(gds, xs, ms, n - 1);
        // The new summand splits like a single Schnorr response.
        lemma_sigma_linear(g, av, at, c);
        assert(mmul(g, az) == madd(mmul(g, at), mmul(mmul(g, av), c)));
        lemma_madd4(st, mmul(sb, c), mmul(g, at), mmul(mmul(g, av), c));
        lemma_mmul_distrib_right(sb, mmul(g, av), c);
        lemma_madd4(st, mmul(g, at), mmul(sb, c), mmul(mmul(g, av), c));
    }
}

/// Answer the challenge for one transaction: the assembled block passes its
/// five verification equations.
fn settle_respond(
    g: &GroupElt,
    b_m: &GroupElt,
    m: &Scal,
    x: &Scal,
    cm: &SettleCommit,
    w: &SettleWit,
    c: &Scal,
) -> (blk: SettleBlock)
    requires
        block_wf(g.dl(), *m, *x, *cm, *w),
        b_m.dl() == mmul(group_hash_dl(h_label()), m.val()),
    ensures
        settle_tx_eqs(g.dl(), *b_m, blk, c.val()),
        block_resp(blk, *cm, *w, *x, c.val()),
{
    let blk = SettleBlock {
        v: cm.v,
        e: cm.e,
        vx: cm.vx,
        ex: cm.ex,
        b_mt: cm.b_mt,
        v_t: cm.v_t,
        e_t: cm.e_t,
        vx_t: cm.vx_t,
        ex_t: cm.ex_t,
        m_z: scalar_add(&w.m_t, &scalar_mul(m, c)),
        x_z: scalar_add(&w.x_t, &scalar_mul(x, c)),
        a_z: scalar_add(&w.a_t, &scalar_mul(&w.a, c)),
        y_z: scalar_add(&w.y_t, &scalar_mul(&w.y, c)),
        t_z: scalar_add(&w.t_t, &scalar_mul(&w.t, c)),
    };
    proof {
        let cv = c.val();
        let gd = g.dl();
        let hd = group_hash_dl(h_label());
        let ud = group_hash_dl(u_label());
        lemma_sigma_linear(hd, m.val(), w.m_t.val(), cv);
        lemma_sigma_linear(gd, w.y.val(), w.y_t.val(), cv);
        lemma_sigma_affine(ud, gd, w.y.val(), w.y_t.val(), m.val(), w.m_t.val(), cv);
        // vx = v^x has exponent g*(x*y), and t = x*y answers for it.
        lemma_mmul_xchg(gd, w.y.val(), x.val());
        assert(cm.vx.dl() == mmul(gd, w.t.val()));
        lemma_sigma_linear(gd, w.t.val(), w.t_t.val(), cv);
        // ex = e^x splits base-wise into u^(x*y) and g^(x*m).
        lemma_mmul_distrib_right(mmul(ud, w.y.val()), mmul(gd, m.val()), x.val());
        lemma_mmul_xchg(ud, w.y.val(), x.val());
        lemma_mmul_xchg(gd, m.val(), x.val());
        assert(cm.ex.dl() == madd(mmul(ud, w.t.val()), mmul(gd, w.a.val())));
        lemma_sigma_affine(ud, gd, w.t.val(), w.t_t.val(), w.a.val(), w.a_t.val(), cv);
    }
    blk
}

/// Prove a settlement: tie the claimed balance `x` and the stored balance
/// `bal` to the masked masks `b_ms` over the bases `gs`, for the amounts
/// `xs` and masks `ms` of the underlying transactions. The proof passes
/// every verification equation.
#[verifier::rlimit(100)]
pub fn zk_settle_prove(
    x: i32,
    bal: &GroupElt,
    b_ms: &Vec<GroupElt>,
    gs: &Vec<GroupElt>,
    xs: &Vec<Scal>,
    ms: &Vec<Scal>,
) -> (r: SettleProof)
    requires
        b_ms.len() == gs.len() && b_ms.len() == xs.len() && b_ms.len() == ms.len(),
        forall|j: int|
            0 <= j < b_ms.len() ==> (#[trigger] b_ms[j]).dl() == mmul(
                group_hash_dl(h_label()),
                ms[j].val(),
            ),
        bal.dl() == sum_gmx(dls_of(gs@), xs@, ms@, b_ms.len() as int),
        scalar_of_int(x as int) == sum_sv(xs@, b_ms.len() as int),
    ensures
        settle_check(x, *bal, b_ms@, dls_of(gs@), r),
{
    let n = b_ms.len();
    let ghost xd = scalar_of_int(x as int);
    let b1 = base_mul(&int_to_scalar(x));
    proof {
        use_type_invariant(&b1);
        lemma_group_elt_wf(b1);
    }

    // Commitment phase: one block of commitments per transaction, absorbed
    // into the transcript as they are formed.
    let mut transcript: Vec<u8> = Vec::new();
    push_bytes32(&mut transcript, &b1.encode());
    push_bytes32(&mut transcript, &bal.encode());
    proof {
        assert(transcript@ =~= commit_transcript(xd, *bal, b_ms@, Seq::empty(), 0));
    }
    let mut cmts: Vec<SettleCommit> = Vec::new();
    let mut wits: Vec<SettleWit> = Vec::new();
    let mut i: usize = 0;
    while i < n
        invariant
            n == b_ms.len(),
            b_ms.len() == gs.len() && b_ms.len() == xs.len() && b_ms.len() == ms.len(),
            0 <= i <= n,
            cmts.len() == i,
            wits.len() == i,
            forall|j: int|
                0 <= j < i ==> block_wf(gs[j].dl(), ms[j], xs[j], #[trigger] cmts[j], wits[j]),
            transcript@ == commit_transcript(xd, *bal, b_ms@, cmts@, i as int),
        decreases n - i,
    {
        let (cm, w) = settle_commit(&gs[i], &ms[i], &xs[i]);
        push_bytes32(&mut transcript, &b_ms[i].encode());
        push_bytes32(&mut transcript, &cm.v_t.encode());
        push_bytes32(&mut transcript, &cm.e_t.encode());
        push_bytes32(&mut transcript, &cm.vx_t.encode());
        push_bytes32(&mut transcript, &cm.ex_t.encode());
        let ghost old_cmts = cmts@;
        cmts.push(cm);
        wits.push(w);
        proof {
            lemma_commit_transcript_grow(xd, *bal, b_ms@, old_cmts, cmts@, i as int);
            assert(transcript@ =~= commit_transcript(xd, *bal, b_ms@, cmts@, i + 1));
        }
        i = i + 1;
    }

    // Aggregate commitments: the blinded amounts summed as a scalar, the
    // blinded cross-base contributions summed as group elements.
    let mut xt_sum = scalar_from_u32(0);
    let mut b2_t = base_mul(&scalar_from_u32(0));
    let mut k: usize = 0;
    while k < n
        invariant
            n == b_ms.len(),
            b_ms.len() == gs.len(),
            wits.len() == n,
            0 <= k <= n,
            xt_sum.val() == sum_wxt(wits@, k as int),
            b2_t.dl() == sum_gat(dls_of(gs@), wits@, k as int),
        decreases n - k,
    {
        xt_sum = scalar_add(&xt_sum, &wits[k].x_t);
        b2_t = point_add(&b2_t, &point_mul(&gs[k], &wits[k].a_t));
        k = k + 1;
    }
    let b1_t = base_mul(&xt_sum);

    // Challenge.
    let c = hash_to_scalar(&transcript);
    let ghost cv = c.val();

    // Response phase: assemble each block from its commitments, witnesses
    // and the challenge.
    let mut blocks: Vec<SettleBlock> = Vec::new();
    let mut j: usize = 0;
    while j < n
        invariant
            n == b_ms.len(),
            b_ms.len() == gs.len() && b_ms.len() == xs.len() && b_ms.len() == ms.len(),
            cmts.len() == n,
            wits.len() == n,
            0 <= j <= n,
            blocks.len() == j,
            cv == c.val(),
            forall|jj: int|
                0 <= jj < n ==> (#[trigger] b_ms[jj]).dl() == mmul(
                    group_hash_dl(h_label()),
                    ms[jj].val(),
                ),
            forall|jj: int|
                0 <= jj < n ==> block_wf(gs[jj].dl(), ms[jj], xs[jj], #[trigger] cmts[jj], wits[jj]),
            forall|jj: int|
                0 <= jj < j ==> settle_tx_eqs(gs[jj].dl(), b_ms[jj], #[trigger] blocks[jj], cv),
            forall|jj: int|
                0 <= jj < j ==> block_resp(#[trigger] blocks[jj], cmts[jj], wits[jj], xs[jj], cv),
        decreases n - j,
    {
        let blk = settle_respond(&gs[j], &b_ms[j], &ms[j], &xs[j], &cmts[j], &wits[j], &c);
        blocks.push(blk);
        j = j + 1;
    }

    let pi = SettleProof { b1_t, b2_t, blocks };
    proof {
        lemma_transcript_from_commits(xd, *bal, b_ms@, cmts@, pi.blocks@, transcript@, n as int);
        assert(cv == hash_scalar_val(settle_transcript(xd, *bal, b_ms@, pi.blocks@, n as int)));
        lemma_b1_sum(pi.blocks@, wits@, xs@, cv, n as int);
        assert(forall|jj: int|
            0 <= jj < n ==> (#[trigger] pi.blocks@[jj]).a_z.val() == madd(
                wits@[jj].a_t.val(),
                mmul(mmul(xs@[jj].val(), ms@[jj].val()), cv),
            ));
        lemma_b2_sum(dls_of(gs@), pi.blocks@, wits@, xs@, ms@, cv, n as int);
        assert(forall|jj: int|
            0 <= jj < n ==> settle_tx_eqs(
                dls_of(gs@)[jj],
                b_ms@[jj],
                #[trigger] pi.blocks@[jj],
                cv,
            ));
        assert(settle_check(x, *bal, b_ms@, dls_of(gs@), pi));
    }
    pi
}

/// Check every verification equation of a settlement proof; the result is
/// exactly whether all of them hold for these inputs.
pub fn zk_settle_verify(
    x: i32,
    bal: &GroupElt,
    b_ms: &Vec<GroupElt>,
    gs: &Vec<GroupElt>,
    pi: &SettleProof,
) -> (r: bool)
    ensures
        r == settle_check(x, *bal, b_ms@, dls_of(gs@), *pi),
{
    let n = b_ms.len();
    if gs.len() != n || pi.blocks.len() != n {
        return false;
    }
    let ghost xd = scalar_of_int(x as int);
    let b1 = base_mul(&int_to_scalar(x));
    proof {
        use_type_invariant(&b1);
        lemma_group_elt_wf(b1);
    }

    // Recompute the challenge from the transcript.
    let mut transcript: Vec<u8> = Vec::new();
    push_bytes32(&mut transcript, &b1.encode());
    push_bytes32(&mut transcript, &bal.encode());
    proof {
        assert(transcript@ =~= settle_transcript(xd, *bal, b_ms@, pi.blocks@, 0));
    }
    let mut i: usize = 0;
    while i < n
        invariant
            n == b_ms.len(),
            pi.blocks.len() == n,
            0 <= i <= n,
            transcript@ == settle_transcript(xd, *bal, b_ms@, pi.blocks@, i as int),
        decreases n - i,
    {
        push_bytes32(&mut transcript, &b_ms[i].encode());
        push_bytes32(&mut transcript, &pi.blocks[i].v_t.encode());
        push_bytes32(&mut transcript, &pi.blocks[i].e_t.encode());
        push_bytes32(&mut transcript, &pi.blocks[i].vx_t.encode());
        push_bytes32(&mut transcript, &pi.blocks[i].ex_t.encode());
        proof {
            assert(transcript@ =~= settle_transcript(xd, *bal, b_ms@, pi.blocks@, i + 1));
        }
        i = i + 1;
    }
    let c = hash_to_scalar(&transcript);
    let ghost cv = c.val();

    // Aggregate checks.
    let mut xz_sum = scalar_from_u32(0);
    let mut b2_left = base_mul(&scalar_from_u32(0));
    let mut k: usize = 0;
    while k < n
        invariant
            n == b_ms.len(),
            gs.len() == n,
            pi.blocks.len() == n,
            0 <= k <= n,
            xz_sum.val() == sum_xz(pi.blocks@, k as int),
            b2_left.dl() == sum_agz(dls_of(gs@), pi.blocks@, k as int),
        decreases n - k,
    {
        xz_sum = scalar_add(&xz_sum, &pi.blocks[k].x_z);
        b2_left = point_add(&b2_left, &point_mul(&gs[k], &pi.blocks[k].a_z));
        k = k + 1;
    }
    let check_b1 = pt_eq(&base_mul(&xz_sum), &point_add(&pi.b1_t, &point_mul(&b1, &c)));
    let check_b2 = pt_eq(&b2_left, &point_add(&pi.b2_t, &point_mul(bal, &c)));

    // Per-transaction checks.
    let h = h_point();
    let u = u_point();
    let mut ok = check_b1 && check_b2;
    let mut j: usize = 0;
    while j < n
        invariant
            n == b_ms.len(),
            gs.len() == n,
            pi.blocks.len() == n,
            0 <= j <= n,
            cv == c.val(),
            h.dl() == group_hash_dl(h_label()),
            u.dl() == group_hash_dl(u_label()),
            ok == (check_b1 && check_b2 && forall|jj: int|
                0 <= jj < j ==> settle_tx_eqs(gs[jj].dl(), b_ms[jj], #[trigger] pi.blocks@[jj], cv)),
            check_b1 == (sum_xz(pi.blocks@, n as int) == madd(
                pi.b1_t.dl(),
                mmul(scalar_of_int(x as int), cv),
            )),
            check_b2 == (sum_agz(dls_of(gs@), pi.blocks@, n as int) == madd(
                pi.b2_t.dl(),
                mmul(bal.dl(), cv),
            )),
        decreases n - j,
    {
        let blk = &pi.blocks[j];
        let g = &gs[j];
        let c1 = pt_eq(&point_mul(&h, &blk.m_z), &point_add(&blk.b_mt, &point_mul(&b_ms[j], &c)));
        let c2 = pt_eq(&point_mul(g, &blk.y_z), &point_add(&blk.v_t, &point_mul(&blk.v, &c)));
        let c3 = pt_eq(
            &point_add(&point_mul(&u, &blk.y_z), &point_mul(g, &blk.m_z)),
            &point_add(&blk.e_t, &point_mul(&blk.e, &c)),
        );
        let c4 = pt_eq(&point_mul(g, &blk.t_z), &point_add(&blk.vx_t, &point_mul(&blk.vx, &c)));
        let c5 = pt_eq(
            &point_add(&point_mul(&u, &blk.t_z), &point_mul(g, &blk.a_z)),
            &point_add(&blk.ex_t, &point_mul(&blk.ex, &c)),
        );
        let all = c1 && c2 && c3 && c4 && c5;
        proof {
            assert(all == settle_tx_eqs(
                gs@[j as int].dl(),
                b_ms@[j as int],
                pi.blocks@[j as int],
                cv,
            ));
        }
        ok = ok && all;
        j = j + 1;
    }
    proof {
        assert(forall|jj: int| 0 <= jj < n ==> gs@[jj].dl() == dls_of(gs@)[jj]);
    }
    ok
}

} // verus!
