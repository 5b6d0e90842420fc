//! Short messages shown in a corner of the window. At most five are kept;
//! a new one pushes out the oldest.
use vstd::prelude::*;

verus! {

/// What a message reports.
#[derive(Debug, Clone, Copy, PartialEq, Eq, Structural)]
pub enum ToastKind {
    Success,
    Error,
    Info,
}

/// One message and when it was shown, in milliseconds of the caller's
/// clock.
#[derive(Debug, Clone)]
pub struct ToastEntry {
    pub kind: ToastKind,
    pub message: String,
    pub shown_at_ms: u64,
}

/// The messages on screen, oldest first.
pub struct ToastQueue {
    pub entries: Vec<ToastEntry>,
}

/// The most messages kept at once.
pub const MAX_TOASTS: usize = 5;

/// The queue after adding `e` to `s`: at the end, dropping the oldest when
/// more than five would be kept.
pub open spec fn pushed(s: Seq<ToastEntry>, e: ToastEntry) -> Seq<ToastEntry> {
    if s.len() + 1 > 5 {
        s.push(e).skip(1)
    } else {
        s.push(e)
    }
}

/// `after` is `before` with one more message of that kind, text and time.
pub open spec fn shows(before: Seq<ToastEntry>, after: Seq<ToastEntry>, kind: ToastKind, text: Seq<char>, now_ms: u64) -> bool {
    &&& after.len() > 0
    &&& after == pushed(before, after.last())
    &&& after.last().kind == kind
    &&& after.last().message@ == text
    &&& after.last().shown_at_ms == now_ms
}

impl ToastQueue {
    /// No messages.
    pub fn new() -> (r: Self)
        ensures
            r.entries@.len() == 0,
    {
        ToastQueue { entries: Vec::new() }
    }

    /// Adds a message of the given kind.
    pub fn push(&mut self, kind: ToastKind, message: String, now_ms: u64)
        ensures
            final(self).entries@ == pushed(old(self).entries@, ToastEntry { kind, message, shown_at_ms: now_ms }),
    {
        let ghost before = self.entries@;
        self.entries.push(ToastEntry { kind, message, shown_at_ms: now_ms });
        if self.entries.len() > 5 {
            self.entries.remove(0);
            assert(self.entries@ =~= before.push(ToastEntry { kind, message, shown_at_ms: now_ms }).skip(1));
        }
    }

    /// Adds a success message.
    pub fn success(&mut self, message: String, now_ms: u64)
        ensures
            final(self).entries@ == pushed(old(self).entries@, ToastEntry { kind: ToastKind::Success, message, shown_at_ms: now_ms }),
    {
        self.push(ToastKind::Success, message, now_ms);
    }

    /// Adds an error message.
    pub fn error(&mut self, message: String, now_ms: u64)
        ensures
            final(self).entries@ == pushed(old(self).entries@, ToastEntry { kind: ToastKind::Error, message, shown_at_ms: now_ms }),
    {
        self.push(ToastKind::Error, message, now_ms);
    }

    /// Adds an informational message.
    pub fn info(&mut self, message: String, now_ms: u64)
        ensures
            final(self).entries@ == pushed(old(self).entries@, ToastEntry { kind: ToastKind::Info, message, shown_at_ms: now_ms }),
    {
        self.push(ToastKind::Info, message, now_ms);
    }

    /// Drops the messages shown `lifetime_ms` or longer ago, keeping the
    /// others in order.
    pub fn expire(&mut self, now_ms: u64, lifetime_ms: u64)
        ensures
            final(self).entries@ == old(self).entries@.filter(|e: ToastEntry| !(e.shown_at_ms <= now_ms && now_ms - e.shown_at_ms >= lifetime_ms)),
    {
        let ghost keep = |e: ToastEntry| !(e.shown_at_ms <= now_ms && now_ms - e.shown_at_ms >= lifetime_ms);
        let ghost all = self.entries@;
        let mut kept: Vec<ToastEntry> = Vec::new();
        let mut rest = Vec::new();
        std::mem::swap(&mut rest, &mut self.entries);
        let mut i: usize = 0;
        let n = rest.len();
        while rest.len() > 0
            invariant
                i + rest.len() == all.len(),
                all.len() == n,
                rest@ == all.skip(i as int),
                kept@ == all.take(i as int).filter(keep),
                keep == (|e: ToastEntry| !(e.shown_at_ms <= now_ms && now_ms - e.shown_at_ms >= lifetime_ms)),
            decreases rest.len(),
        {
            let e = rest.remove(0);
            proof {
                assert(all.take(i as int + 1).drop_last() =~= all.take(i as int));
                assert(all[i as int] == e);
                all.take(i as int).lemma_filter_push(e, keep);
                assert(all.take(i as int + 1) =~= all.take(i as int).push(e));
            }
            let expired = e.shown_at_ms <= now_ms && now_ms - e.shown_at_ms >= lifetime_ms;
            assert(keep(e) == !expired);
            if !expired {
                kept.push(e);
            }
            i += 1;
            assert(rest@ =~= all.skip(i as int));
        }
        assert(all.take(i as int) =~= all);
        self.entries = kept;
    }
}

/// Adding a message never leaves more than five, and the newest is last.
pub proof fn lemma_queue_keeps_at_most_five(s: Seq<ToastEntry>, e: ToastEntry)
    requires
        s.len() <= 5,
    ensures
        pushed(s, e).len() <= 5,
        pushed(s, e).last() == e,
{
}

} // verus!
