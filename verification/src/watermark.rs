//! Per-channel polling watermarks: the highest message timestamp already
//! judged, persisted so a restarted adapter resumes without re-delivering
//! what was already processed. The watermark only ever rises, and after
//! any run of ticks it equals the highest timestamp ever judged for that
//! channel (or the starting value, when nothing was).

use vstd::prelude::*;

use crate::primitives::AccountType;

verus! {

/// The highest of a run of timestamps, or `base` when the run is empty.
pub open spec fn seq_max_or(s: Seq<u64>, base: u64) -> u64
    decreases s.len(),
{
    if s.len() == 0 {
        base
    } else {
        let rest = seq_max_or(s.drop_last(), base);
        if s.last() > rest {
            s.last()
        } else {
            rest
        }
    }
}

/// Folding one tick after another: each tick raises the watermark to the
/// highest timestamp it judged.
pub open spec fn fold_ticks(w0: u64, ticks: Seq<Seq<u64>>) -> u64
    decreases ticks.len(),
{
    if ticks.len() == 0 {
        w0
    } else {
        seq_max_or(ticks.last(), fold_ticks(w0, ticks.drop_last()))
    }
}

/// All timestamps of all ticks, in order.
pub open spec fn concat_all(ticks: Seq<Seq<u64>>) -> Seq<u64>
    decreases ticks.len(),
{
    if ticks.len() == 0 {
        Seq::empty()
    } else {
        concat_all(ticks.drop_last()) + ticks.last()
    }
}

pub proof fn lemma_seq_max_ge_base(s: Seq<u64>, base: u64)
    ensures
        seq_max_or(s, base) >= base,
    decreases s.len(),
{
    if s.len() > 0 {
        lemma_seq_max_ge_base(s.drop_last(), base);
    }
}

proof fn lemma_seq_max_concat(a: Seq<u64>, b: Seq<u64>, base: u64)
    ensures
        seq_max_or(a + b, base) == seq_max_or(b, seq_max_or(a, base)),
    decreases b.len(),
{
    if b.len() == 0 {
        assert(a + b =~= a);
    } else {
        assert((a + b).drop_last() =~= a + b.drop_last());
        assert((a + b).last() == b.last());
        lemma_seq_max_concat(a, b.drop_last(), base);
    }
}

/// Watermark soundness and monotonicity: after any run of ticks the
/// watermark equals the highest timestamp ever judged (or the starting
/// value), it never drops below the start, and every further tick can
/// only raise it.
pub proof fn lemma_watermark_fold(w0: u64, ticks: Seq<Seq<u64>>)
    ensures
        fold_ticks(w0, ticks) == seq_max_or(concat_all(ticks), w0),
        fold_ticks(w0, ticks) >= w0,
        forall|n: int|
            0 <= n <= ticks.len() ==> #[trigger] fold_ticks(w0, ticks.take(n)) <= fold_ticks(
                w0,
                ticks,
            ),
    decreases ticks.len(),
{
    if ticks.len() == 0 {
        assert(ticks.take(0) =~= ticks);
    } else {
        lemma_watermark_fold(w0, ticks.drop_last());
        lemma_seq_max_concat(concat_all(ticks.drop_last()), ticks.last(), w0);
        lemma_seq_max_ge_base(ticks.last(), fold_ticks(w0, ticks.drop_last()));
        assert(fold_ticks(w0, ticks) >= fold_ticks(w0, ticks.drop_last()));
        assert forall|n: int| 0 <= n <= ticks.len() implies #[trigger] fold_ticks(
            w0,
            ticks.take(n),
        ) <= fold_ticks(w0, ticks) by {
            if n < ticks.len() {
                assert(ticks.take(n) =~= ticks.drop_last().take(n));
            } else {
                assert(ticks.take(n) =~= ticks);
            }
        }
    }
}

/// Mathematical model of the watermark store.
#[verifier::ext_equal]
pub ghost struct WatermarksView {
    pub display_name: u64,
    pub legal_name: u64,
    pub email: u64,
    pub web: u64,
    pub twitter: u64,
    pub matrix: u64,
}

/// The watermark of one channel.
pub open spec fn wm_of(w: WatermarksView, ty: AccountType) -> u64 {
    match ty {
        AccountType::DisplayName => w.display_name,
        AccountType::LegalName => w.legal_name,
        AccountType::Email => w.email,
        AccountType::Web => w.web,
        AccountType::Twitter => w.twitter,
        AccountType::Matrix => w.matrix,
    }
}

pub open spec fn with_wm(w: WatermarksView, ty: AccountType, v: u64) -> WatermarksView {
    match ty {
        AccountType::DisplayName => WatermarksView { display_name: v, ..w },
        AccountType::LegalName => WatermarksView { legal_name: v, ..w },
        AccountType::Email => WatermarksView { email: v, ..w },
        AccountType::Web => WatermarksView { web: v, ..w },
        AccountType::Twitter => WatermarksView { twitter: v, ..w },
        AccountType::Matrix => WatermarksView { matrix: v, ..w },
    }
}

/// One watermark per channel type.
pub struct Watermarks {
    pub display_name: u64,
    pub legal_name: u64,
    pub email: u64,
    pub web: u64,
    pub twitter: u64,
    pub matrix: u64,
}

impl View for Watermarks {
    type V = WatermarksView;

    open spec fn view(&self) -> WatermarksView {
        WatermarksView {
            display_name: self.display_name,
            legal_name: self.legal_name,
            email: self.email,
            web: self.web,
            twitter: self.twitter,
            matrix: self.matrix,
        }
    }
}

impl Watermarks {
    /// All channels start at zero: everything is new.
    pub fn new() -> (r: Watermarks)
        ensures
            forall|ty: AccountType| wm_of(r@, ty) == 0,
    {
        let w = Watermarks {
            display_name: 0,
            legal_name: 0,
            email: 0,
            web: 0,
            twitter: 0,
            matrix: 0,
        };
        proof {
            assert forall|ty: AccountType| wm_of(w@, ty) == 0 by {
                match ty {
                    AccountType::DisplayName => {},
                    AccountType::LegalName => {},
                    AccountType::Email => {},
                    AccountType::Web => {},
                    AccountType::Twitter => {},
                    AccountType::Matrix => {},
                }
            }
        }
        w
    }

    pub fn select_watermark(&self, ty: AccountType) -> (r: u64)
        ensures
            r == wm_of(self@, ty),
    {
        match ty {
            AccountType::DisplayName => self.display_name,
            AccountType::LegalName => self.legal_name,
            AccountType::Email => self.email,
            AccountType::Web => self.web,
            AccountType::Twitter => self.twitter,
            AccountType::Matrix => self.matrix,
        }
    }

    /// Raise one channel's watermark to `candidate` if that is higher:
    /// the watermark never goes backwards.
    pub fn update_watermark(&mut self, ty: AccountType, candidate: u64)
        ensures
            final(self)@ =~= with_wm(
                old(self)@,
                ty,
                if candidate > wm_of(old(self)@, ty) {
                    candidate
                } else {
                    wm_of(old(self)@, ty)
                },
            ),
            wm_of(final(self)@, ty) >= wm_of(old(self)@, ty),
            wm_of(final(self)@, ty) >= candidate,
    {
        let ghost pre = self@;
        let current = self.select_watermark(ty);
        let next = if candidate > current {
            candidate
        } else {
            current
        };
        match ty {
            AccountType::DisplayName => {
                self.display_name = next;
            },
            AccountType::LegalName => {
                self.legal_name = next;
            },
            AccountType::Email => {
                self.email = next;
            },
            AccountType::Web => {
                self.web = next;
            },
            AccountType::Twitter => {
                self.twitter = next;
            },
            AccountType::Matrix => {
                self.matrix = next;
            },
        }
        proof {
            assert(final(self)@ =~= with_wm(pre, ty, next));
        }
    }
}

} // verus!
