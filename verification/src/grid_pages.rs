//! Confirmable pages: cancels and claims sent to the pair in batches, each
//! remembered under a reply id until the pair's answer confirms or reverts it.
use vstd::prelude::*;
use crate::errors::StdFault;
use crate::grid_types::{ContractError, PageKind, PendingPage, PendingPageEntry, VaultMode};
use crate::grid_vault::{entries_indexed, GridVault};

verus! {

/// A batch of order ids sent to the pair to cancel (or to claim once expired),
/// whose outcome comes back under `reply_id`.
pub struct PageRequest {
    pub reply_id: u64,
    pub kind: PageKind,
    pub order_ids: Vec<u64>,
}

/// `s` cut into consecutive pieces of `size` entries, the last one shorter.
pub open spec fn chunks<E>(s: Seq<E>, size: int) -> Seq<Seq<E>>
    decreases s.len(),
{
    if s.len() == 0 || size <= 0 {
        Seq::empty()
    } else if s.len() <= size {
        seq![s]
    } else {
        seq![s.take(size)] + chunks(s.skip(size), size)
    }
}

/// The page size a batch limit allows: the limit, but at least one.
pub open spec fn page_size(batch_limit: u32) -> int {
    if batch_limit == 0 { 1 } else { batch_limit as int }
}

/// The ids of a page's entries.
pub open spec fn entry_ids(s: Seq<PendingPageEntry>) -> Seq<u64> {
    s.map_values(|e: PendingPageEntry| e.order_id)
}

/// Number of pieces `chunks` makes.
pub proof fn lemma_chunks_len<E>(s: Seq<E>, size: int)
    requires
        size > 0,
    ensures
        chunks(s, size).len() == (s.len() + size - 1) / size,
        forall|k: int| 0 <= k < chunks(s, size).len() ==> (#[trigger] chunks(s, size)[k]) == s.subrange(
            k * size,
            if (k + 1) * size <= s.len() { (k + 1) * size } else { s.len() as int },
        ),
    decreases s.len(),
{
    if s.len() == 0 {
        assert((s.len() + size - 1) / size == 0) by (nonlinear_arith)
            requires
                s.len() == 0,
                size > 0,
        ;
    } else if s.len() <= size {
        assert((s.len() + size - 1) / size == 1) by (nonlinear_arith)
            requires
                0 < s.len() <= size,
        ;
        assert(s.subrange(0, s.len() as int) =~= s);
        assert forall|k: int| 0 <= k < chunks(s, size).len() implies (#[trigger] chunks(s, size)[k]) == s.subrange(
            k * size,
            if (k + 1) * size <= s.len() { (k + 1) * size } else { s.len() as int },
        ) by {
            assert(k == 0);
            assert(k * size == 0) by (nonlinear_arith) requires k == 0;
            assert((k + 1) * size == size) by (nonlinear_arith) requires k == 0;
        }
    } else {
        let rest = s.skip(size);
        lemma_chunks_len(rest, size);
        assert(chunks(s, size) == seq![s.take(size)] + chunks(rest, size));
        assert(rest.len() == s.len() - size);
        assert((s.len() + size - 1) / size == 1 + (rest.len() + size - 1) / size) by (nonlinear_arith)
            requires
                rest.len() == s.len() - size,
                size > 0,
        ;
        assert forall|k: int| 0 <= k < chunks(s, size).len() implies (#[trigger] chunks(s, size)[k]) == s.subrange(
            k * size,
            if (k + 1) * size <= s.len() { (k + 1) * size } else { s.len() as int },
        ) by {
            if k == 0 {
                assert(k * size == 0) by (nonlinear_arith) requires k == 0;
                assert((k + 1) * size == size) by (nonlinear_arith) requires k == 0;
                assert(s.take(size) =~= s.subrange(0, size));
            } else {
                assert(chunks(s, size)[k] == (seq![s.take(size)] + chunks(rest, size))[k]);
                assert(chunks(s, size)[k] == chunks(rest, size)[k - 1]);
                assert(0 <= k - 1 < chunks(rest, size).len());
                let a = (k - 1) * size;
                let b = if k * size <= rest.len() { k * size } else { rest.len() as int };
                assert(chunks(rest, size)[k - 1] == rest.subrange(a, b));
                assert(k * size == (k - 1) * size + size) by (nonlinear_arith);
                assert((k + 1) * size == k * size + size) by (nonlinear_arith);
                assert(a >= 0) by (nonlinear_arith)
                    requires
                        k >= 1,
                        size > 0,
                        a == (k - 1) * size,
                ;
                assert(k - 1 < (rest.len() + size - 1) / size);
                assert(a < rest.len()) by (nonlinear_arith)
                    requires
                        k - 1 < (rest.len() + size - 1) / size,
                        a == (k - 1) * size,
                        size > 0,
                ;
                assert(a <= b);
                assert(b <= rest.len());
                assert forall|t: int| 0 <= t < b - a implies #[trigger] rest.subrange(a, b)[t] == s.subrange(a + size, b + size)[t] by {
                    assert(rest[a + t] == s[a + t + size]);
                }
                assert(rest.subrange(a, b) =~= s.subrange(a + size, b + size));
            }
        }
    }
}



/// The pages of `after` outside the reply ids `lo..hi` are those of `before`.
pub open spec fn pages_kept(after: Map<u64, PendingPage>, before: Map<u64, PendingPage>, lo: int, hi: int) -> bool {
    forall|id: u64|
        !(lo <= id < hi) ==> #[trigger] after.contains_key(id) == before.contains_key(id) && (before.contains_key(id)
            ==> after[id] == before[id])
}

/// Pages needed for `cancels` then `claims` at the given batch limit.
pub open spec fn pages_needed(cancels: Seq<PendingPageEntry>, claims: Seq<PendingPageEntry>, batch_limit: u32) -> int {
    (chunks(cancels, page_size(batch_limit)).len() + chunks(claims, page_size(batch_limit)).len()) as int
}

/// The kind of page `k`: cancel pages come first.
pub open spec fn page_kind(cancels: Seq<PendingPageEntry>, batch_limit: u32, k: int) -> PageKind {
    if k < chunks(cancels, page_size(batch_limit)).len() { PageKind::Cancel } else { PageKind::Claim }
}

/// The entries of page `k`.
pub open spec fn page_piece(cancels: Seq<PendingPageEntry>, claims: Seq<PendingPageEntry>, batch_limit: u32, k: int) -> Seq<PendingPageEntry> {
    let pc = chunks(cancels, page_size(batch_limit));
    if k < pc.len() { pc[k] } else { chunks(claims, page_size(batch_limit))[k - pc.len()] }
}

/// `req` carries `piece` under `reply_id`, and `v` remembers that page.
pub open spec fn page_sent(v: GridVault, req: PageRequest, reply_id: int, bot_id: u64, kind: PageKind, piece: Seq<PendingPageEntry>) -> bool {
    &&& req.reply_id == reply_id
    &&& req.kind == kind
    &&& req.order_ids@ == entry_ids(piece)
    &&& v.pending_pages@.contains_key(reply_id as u64)
    &&& v.pending_pages@[reply_id as u64].bot_id == bot_id
    &&& v.pending_pages@[reply_id as u64].kind == kind
    &&& v.pending_pages@[reply_id as u64].entries@ == piece
}

impl GridVault {
    /// The next reply id after `count` more pages, or an error when the ids
    /// would run out.
    pub open spec fn pages_fit(&self, count: int) -> bool {
        count == 0 || self.next_reply_id + count <= u64::MAX
    }

    /// Send `entries` of `kind` to the pair in pages of at most `size` entries,
    /// each under a fresh reply id, and remember each page.
    fn push_pages(&mut self, bot_id: u64, kind: PageKind, entries: &Vec<PendingPageEntry>, size: u32, out: &mut Vec<PageRequest>)
        requires
            old(self).wf(),
            size > 0,
            old(self).pages_fit(chunks(entries@, size as int).len() as int),
            entries_indexed(entries@),
        ensures
            final(self).wf(),
            ({
                let pieces = chunks(entries@, size as int);
                let n = pieces.len() as int;
                let first = old(self).next_reply_id;
                &&& final(self).next_reply_id == first + n
                &&& final(out)@.len() == old(out)@.len() + n
                &&& forall|j: int| 0 <= j < old(out)@.len() ==> #[trigger] final(out)@[j] == old(out)@[j]
                &&& forall|k: int| 0 <= k < n ==> {
                    let req = #[trigger] final(out)@[old(out)@.len() + k];
                    &&& req.reply_id == first + k
                    &&& req.kind == kind
                    &&& req.order_ids@ == entry_ids(pieces[k])
                    &&& final(self).pending_pages@.contains_key((first + k) as u64)
                    &&& final(self).pending_pages@[(first + k) as u64].bot_id == bot_id
                    &&& final(self).pending_pages@[(first + k) as u64].kind == kind
                    &&& final(self).pending_pages@[(first + k) as u64].entries@ == pieces[k]
                }
                &&& forall|id: u64| !(first <= id < first + n) ==> #[trigger] final(self).pending_pages@.contains_key(id)
                    == old(self).pending_pages@.contains_key(id) && (old(self).pending_pages@.contains_key(id)
                    ==> final(self).pending_pages@[id] == old(self).pending_pages@[id])
            }),
            final(self).config == old(self).config,
            final(self).mode == old(self).mode,
            final(self).has_bot == old(self).has_bot,
            final(self).bot == old(self).bot,
            final(self).rungs == old(self).rungs,
            final(self).orders == old(self).orders,
            final(self).cancelled == old(self).cancelled,
            final(self).shares == old(self).shares,
            final(self).placements == old(self).placements,
            final(self).token_policy_enabled == old(self).token_policy_enabled,
            final(self).allowed_tokens == old(self).allowed_tokens,
            final(self).quarantine == old(self).quarantine,
            final(self).next_bot_id == old(self).next_bot_id,
    {
        let ghost s = entries@;
        let ghost l = size as int;
        let ghost pieces = chunks(s, l);
        let ghost first = self.next_reply_id as int;
        let ghost out0 = out@;
        let ghost pages0 = self.pending_pages@;
        proof {
            lemma_chunks_len(s, l);
        }
        let mut start: usize = 0;
        let ghost mut k: int = 0;
        while start < entries.len()
            invariant
                self.wf(),
                s == entries@,
                entries_indexed(s),
                l == size as int,
                l > 0,
                pieces == chunks(s, l),
                pieces.len() == (s.len() + l - 1) / l,
                forall|q: int| 0 <= q < pieces.len() ==> (#[trigger] pieces[q]) == s.subrange(
                    q * l,
                    if (q + 1) * l <= s.len() { (q + 1) * l } else { s.len() as int },
                ),
                start == k * l || (start == s.len() && k == pieces.len()),
                0 <= k,
                start <= s.len(),
                k <= pieces.len(),
                start < s.len() ==> k < pieces.len(),
                first + pieces.len() <= u64::MAX || pieces.len() == 0,
                self.next_reply_id == first + k,
                out@.len() == out0.len() + k,
                forall|j: int| 0 <= j < out0.len() ==> #[trigger] out@[j] == out0[j],
                forall|q: int| 0 <= q < k ==> {
                    let req = #[trigger] out@[out0.len() + q];
                    &&& req.reply_id == first + q
                    &&& req.kind == kind
                    &&& req.order_ids@ == entry_ids(pieces[q])
                    &&& self.pending_pages@.contains_key((first + q) as u64)
                    &&& self.pending_pages@[(first + q) as u64].bot_id == bot_id
                    &&& self.pending_pages@[(first + q) as u64].kind == kind
                    &&& self.pending_pages@[(first + q) as u64].entries@ == pieces[q]
                },
                forall|id: u64| !(first <= id < first + k) ==> #[trigger] self.pending_pages@.contains_key(id)
                    == pages0.contains_key(id) && (pages0.contains_key(id) ==> self.pending_pages@[id] == pages0[id]),
                self.config == old(self).config,
                self.mode == old(self).mode,
                self.has_bot == old(self).has_bot,
                self.bot == old(self).bot,
                self.rungs == old(self).rungs,
                self.orders == old(self).orders,
                self.cancelled == old(self).cancelled,
                self.shares == old(self).shares,
                self.placements == old(self).placements,
                self.token_policy_enabled == old(self).token_policy_enabled,
                self.allowed_tokens == old(self).allowed_tokens,
                self.quarantine == old(self).quarantine,
                self.next_bot_id == old(self).next_bot_id,
            decreases s.len() - start,
        {
            let end: usize = if entries.len() - start > size as usize { start + size as usize } else { entries.len() };
            proof {
                if start != k * l {
                    assert(start == s.len());
                }
                assert((k + 1) * l == k * l + l) by (nonlinear_arith);
                assert(pieces[k as int] == s.subrange(start as int, end as int));
            }
            let mut page: Vec<PendingPageEntry> = Vec::new();
            let mut ids: Vec<u64> = Vec::new();
            let mut j: usize = start;
            while j < end
                invariant
                    start <= j <= end <= entries@.len(),
                    page@ == entries@.subrange(start as int, j as int),
                    ids@ == entry_ids(entries@.subrange(start as int, j as int)),
                decreases end - j,
            {
                page.push(entries[j]);
                ids.push(entries[j].order_id);
                proof {
                    assert(entries@.subrange(start as int, j + 1) =~= entries@.subrange(start as int, j as int).push(entries@[j as int]));
                    assert(entry_ids(entries@.subrange(start as int, j + 1)) =~= entry_ids(entries@.subrange(start as int, j as int)).push(entries@[j as int].order_id));
                }
                j = j + 1;
            }
            let reply_id = self.next_reply_id;
            proof {
                assert(k < pieces.len());
            }
            self.next_reply_id = reply_id + 1;
            let ghost before = self.pending_pages@;
            let ghost out_before = out@;
            proof {
                assert(entries_indexed(page@)) by {
                    assert forall|t: int| 0 <= t < page@.len() implies (#[trigger] page@[t]).token_index < 2 by {
                        assert(page@[t] == s[start + t]);
                    }
                }
            }
            if self.pending_pages.contains(reply_id) {
                self.pending_pages.replace(reply_id, PendingPage { bot_id, kind, entries: page });
            } else {
                self.pending_pages.insert(reply_id, PendingPage { bot_id, kind, entries: page });
            }
            out.push(PageRequest { reply_id, kind, order_ids: ids });
            proof {
                if end < s.len() {
                    assert(end == (k + 1) * l);
                    assert(k + 1 < (s.len() + l - 1) / l) by (nonlinear_arith)
                        requires
                            (k + 1) * l < s.len(),
                            l > 0,
                    ;
                } else {
                    assert((s.len() + l - 1) / l <= k + 1) by (nonlinear_arith)
                        requires end == s.len(), start == k * l, end - start <= l, l > 0;
                }
                assert forall|q: int| 0 <= q < k + 1 implies {
                    let req = #[trigger] out@[out0.len() + q];
                    &&& req.reply_id == first + q
                    &&& req.kind == kind
                    &&& req.order_ids@ == entry_ids(pieces[q])
                    &&& self.pending_pages@.contains_key((first + q) as u64)
                    &&& self.pending_pages@[(first + q) as u64].bot_id == bot_id
                    &&& self.pending_pages@[(first + q) as u64].kind == kind
                    &&& self.pending_pages@[(first + q) as u64].entries@ == pieces[q]
                } by {
                    if q < k {
                        assert(out_before[out0.len() + q] == out@[out0.len() + q]);
                        assert(before.contains_key((first + q) as u64));
                    }
                }
            }
            start = end;
            proof {
                k = k + 1;
            }
        }
        proof {
            if start == k * l {
                assert(k == pieces.len()) by (nonlinear_arith)
                    requires
                        k * l >= s.len(),
                        k <= (s.len() + l - 1) / l,
                        pieces.len() == (s.len() + l - 1) / l,
                        l > 0,
                        k >= 0,
                ;
            }
        }
    }

    /// Send `cancels`, then `claims`, to the pair in pages of at most `batch_limit`
    /// entries (at least one), and remember each page until the pair answers.
    #[verifier::spinoff_prover]
    pub fn add_confirmable_pages(
        &mut self,
        bot_id: u64,
        cancels: &Vec<PendingPageEntry>,
        claims: &Vec<PendingPageEntry>,
        batch_limit: u32,
    ) -> (r: Result<Vec<PageRequest>, ContractError>)
        requires
            old(self).wf(),
            entries_indexed(cancels@),
            entries_indexed(claims@),
        ensures
            final(self).wf(),
            old(self).mode == VaultMode::Exit ==> final(self).mode == VaultMode::Exit,
            !old(self).pages_fit(pages_needed(cancels@, claims@, batch_limit)) ==> r == Err::<Vec<PageRequest>, ContractError>(
                ContractError::Std(StdFault::Overflow),
            ) && *final(self) == *old(self),
            old(self).pages_fit(pages_needed(cancels@, claims@, batch_limit)) ==> r is Ok,
            r matches Ok(reqs) ==> reqs@.len() == pages_needed(cancels@, claims@, batch_limit) && final(self).next_reply_id
                == old(self).next_reply_id + reqs@.len(),
            r matches Ok(reqs) ==> forall|k: int|
                0 <= k < reqs@.len() ==> page_sent(
                    *final(self),
                    #[trigger] reqs@[k],
                    old(self).next_reply_id + k,
                    bot_id,
                    page_kind(cancels@, batch_limit, k),
                    page_piece(cancels@, claims@, batch_limit, k),
                ),
            r matches Ok(reqs) ==> pages_kept(
                final(self).pending_pages@,
                old(self).pending_pages@,
                old(self).next_reply_id as int,
                old(self).next_reply_id + reqs@.len(),
            ),
            final(self).config == old(self).config,
            final(self).mode == old(self).mode,
            final(self).has_bot == old(self).has_bot,
            final(self).bot == old(self).bot,
            final(self).rungs == old(self).rungs,
            final(self).orders == old(self).orders,
            final(self).cancelled == old(self).cancelled,
            final(self).shares == old(self).shares,
            final(self).placements == old(self).placements,
            final(self).token_policy_enabled == old(self).token_policy_enabled,
            final(self).allowed_tokens == old(self).allowed_tokens,
            final(self).quarantine == old(self).quarantine,
            final(self).next_bot_id == old(self).next_bot_id,
    {
        let size: u32 = if batch_limit == 0 { 1 } else { batch_limit };
        proof {
            lemma_chunks_len(cancels@, size as int);
            lemma_chunks_len(claims@, size as int);
        }
        let nc: u128 = ((cancels.len() as u128) + (size as u128) - 1) / (size as u128);
        let nm: u128 = ((claims.len() as u128) + (size as u128) - 1) / (size as u128);
        if nc + nm > 0 && (self.next_reply_id as u128) + nc + nm > u64::MAX as u128 {
            return Err(ContractError::Std(StdFault::Overflow));
        }
        let ghost first = self.next_reply_id as int;
        let ghost pages0 = self.pending_pages@;
        let mut out: Vec<PageRequest> = Vec::new();
        self.push_pages(bot_id, PageKind::Cancel, cancels, size, &mut out);
        let ghost out1 = out@;
        let ghost pages1 = self.pending_pages@;
        self.push_pages(bot_id, PageKind::Claim, claims, size, &mut out);
        proof {
            let pc = chunks(cancels@, size as int);
            let pm = chunks(claims@, size as int);
            let n = (pc.len() + pm.len()) as int;
            assert forall|k: int| 0 <= k < out@.len() implies page_sent(
                *self,
                #[trigger] out@[k],
                first + k,
                bot_id,
                page_kind(cancels@, batch_limit, k),
                page_piece(cancels@, claims@, batch_limit, k),
            ) by {
                if k < pc.len() {
                    assert(out1[0 + k] == out1[k]);
                    assert(out@[k] == out1[k]);
                    assert(pages1.contains_key((first + k) as u64));
                    assert(self.pending_pages@.contains_key((first + k) as u64));
                } else {
                    let k2 = k - pc.len();
                    assert(out@[out1.len() + k2] == out@[k]);
                }
            }
            assert(out@.len() == n);
            assert(pages0 == old(self).pending_pages@);
            assert(first == old(self).next_reply_id);
            assert(pages_kept(self.pending_pages@, pages0, first, first + out@.len())) by {
                assert forall|id: u64| !(first <= id < first + out@.len()) implies #[trigger] self.pending_pages@.contains_key(id)
                    == pages0.contains_key(id) && (pages0.contains_key(id) ==> self.pending_pages@[id] == pages0[id]) by {
                    assert(!(first <= id < first + pc.len()));
                    assert(!(first + pc.len() <= id < first + pc.len() + pm.len()));
                    assert(pages1.contains_key(id) == pages0.contains_key(id));
                    assert(self.pending_pages@.contains_key(id) == pages1.contains_key(id));
                    if pages0.contains_key(id) {
                        assert(pages1[id] == pages0[id]);
                        assert(self.pending_pages@[id] == pages1[id]);
                    }
                }
            }
        }
        Ok(out)
    }
}

} // verus!
