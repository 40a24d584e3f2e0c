//! Re-indexing when notes change: which file-system events count, and
//! the debounce that turns a burst of changes into one rebuild.
use vstd::prelude::*;

use crate::paths::{extension, path_extension};
use crate::text::str_eq;

verus! {

/// What the vault watcher reports.
pub enum WatcherEvent {
    VaultChanged,
}

/// The kind of a file-system event, as far as the watcher cares.
pub enum ChangeKind {
    /// A file's data was modified.
    ModifyData,
    Create,
    Remove,
    /// Any other event (metadata, renames, access, ...).
    Other,
}

/// A path with the extension `md` or `MD`.
pub open spec fn is_note_path(p: Seq<char>) -> bool {
    extension(p) == Some("md"@) || extension(p) == Some("MD"@)
}

/// A file-system event that calls for re-indexing: data modified, or a
/// file created or removed, for at least one note path.
pub open spec fn is_change(kind: ChangeKind, paths: Seq<Seq<char>>) -> bool {
    !(kind is Other) && exists|i: int| 0 <= i < paths.len() && is_note_path(#[trigger] paths[i])
}

/// Whether a path has the extension `md` or `MD`.
pub fn note_path(p: &str) -> (r: bool)
    ensures
        r == is_note_path(p@),
{
    match path_extension(p) {
        Some(x) => {
            let md = str_eq(x.as_str(), "md");
            let upper = str_eq(x.as_str(), "MD");
            proof {
                if md {
                    assert(extension(p@) == Some("md"@));
                }
                if upper {
                    assert(extension(p@) == Some("MD"@));
                }
            }
            md || upper
        },
        None => false,
    }
}

/// Whether a file-system event calls for re-indexing.
pub fn is_vault_change(kind: &ChangeKind, paths: &Vec<String>) -> (r: bool)
    ensures
        r == is_change(*kind, paths.deep_view()),
{
    if let ChangeKind::Other = kind {
        return false;
    }
    let mut i: usize = 0;
    while i < paths.len()
        invariant
            i <= paths.len(),
            !(*kind is Other),
            forall|j: int| 0 <= j < i ==> !is_note_path(#[trigger] paths.deep_view()[j]),
        decreases paths.len() - i,
    {
        if note_path(paths[i].as_str()) {
            assert(is_note_path(paths.deep_view()[i as int]));
            return true;
        }
        i = i + 1;
    }
    false
}

/// What the watcher loop does after a message from the watcher.
pub enum DebounceAction {
    /// Restart the two-second quiet period.
    ResetTimer,
    /// The watcher is gone: stop the loop.
    Stop,
}

/// The watcher loop's state: whether a rebuild is owed and whether the
/// channel from the watcher is still open.
pub struct Debouncer {
    pub pending_rebuild: bool,
    pub channel_alive: bool,
}

/// The loop's state after a message from the watcher (`None`: the channel
/// closed): a change makes a rebuild owed; a closed channel ends the loop.
pub open spec fn after_message(d: Debouncer, message: Option<WatcherEvent>) -> Debouncer {
    match message {
        Some(_) => Debouncer { pending_rebuild: true, ..d },
        None => Debouncer { channel_alive: false, ..d },
    }
}

/// The loop's state after the quiet period ended: no rebuild is owed.
pub open spec fn after_tick(d: Debouncer) -> Debouncer {
    Debouncer { pending_rebuild: false, ..d }
}

/// The loop's state after `n` changes in a row.
pub open spec fn after_changes(d: Debouncer, n: nat) -> Debouncer
    decreases n,
{
    if n == 0 {
        d
    } else {
        after_message(after_changes(d, (n - 1) as nat), Some(WatcherEvent::VaultChanged))
    }
}

impl Debouncer {
    /// No rebuild owed, channel open.
    pub fn new() -> (d: Debouncer)
        ensures
            !d.pending_rebuild,
            d.channel_alive,
    {
        Debouncer { pending_rebuild: false, channel_alive: true }
    }

    /// A message from the watcher arrived (`None`: the channel closed). A
    /// change makes a rebuild owed and restarts the quiet period.
    pub fn on_message(&mut self, message: Option<WatcherEvent>) -> (a: DebounceAction)
        ensures
            *final(self) == after_message(*old(self), message),
            message is Some ==> a is ResetTimer,
            message is None ==> a is Stop,
    {
        match message {
            Some(WatcherEvent::VaultChanged) => {
                self.pending_rebuild = true;
                DebounceAction::ResetTimer
            },
            None => {
                self.channel_alive = false;
                DebounceAction::Stop
            },
        }
    }

    /// The quiet period ended: returns whether to rebuild now, which is
    /// when one is owed; afterwards none is owed.
    pub fn on_tick(&mut self) -> (rebuild: bool)
        ensures
            rebuild == old(self).pending_rebuild,
            *final(self) == after_tick(*old(self)),
    {
        let owed = self.pending_rebuild;
        self.pending_rebuild = false;
        owed
    }
}

/// A burst of one or more changes before the quiet period ends leads to
/// exactly one rebuild: the tick that ends the period rebuilds, the next
/// tick does not, and the channel stays as it was.
pub proof fn law_burst_rebuilds_once(d: Debouncer, n: nat)
    requires
        n >= 1,
    ensures
        after_changes(d, n).pending_rebuild,
        !after_tick(after_changes(d, n)).pending_rebuild,
        after_tick(after_changes(d, n)).channel_alive == d.channel_alive,
    decreases n,
{
    if n > 1 {
        law_burst_rebuilds_once(d, (n - 1) as nat);
    } else {
        assert(after_changes(d, 0) == d);
    }
}

/// What reaches the watcher loop, in the order it arrives: a message from
/// the watcher (`None`: the channel closed), or the end of a quiet period.
pub enum LoopEvent {
    Message(Option<WatcherEvent>),
    Tick,
}

/// The loop's state after the events `es`, each handled by
/// [`Debouncer::on_message`] or [`Debouncer::on_tick`].
pub open spec fn after_events(d: Debouncer, es: Seq<LoopEvent>) -> Debouncer
    decreases es.len(),
{
    if es.len() == 0 {
        d
    } else {
        let before = after_events(d, es.drop_last());
        match es.last() {
            LoopEvent::Message(m) => after_message(before, m),
            LoopEvent::Tick => after_tick(before),
        }
    }
}

/// A change reported by the watcher.
pub open spec fn brings_change(e: LoopEvent) -> bool {
    e matches LoopEvent::Message(Some(_))
}

/// The channel from the watcher closing.
pub open spec fn closes(e: LoopEvent) -> bool {
    e matches LoopEvent::Message(None)
}

/// A change arrived after every tick of `es`; or `es` holds no tick and a
/// rebuild was owed at the start or a change arrived.
pub open spec fn changed_since_tick(owed_at_start: bool, es: Seq<LoopEvent>) -> bool {
    ||| exists|i: int|
        0 <= i < es.len() && brings_change(#[trigger] es[i]) && forall|j: int|
            i < j < es.len() ==> !(#[trigger] es[j] is Tick)
    ||| owed_at_start && forall|j: int| 0 <= j < es.len() ==> !(#[trigger] es[j] is Tick)
}

/// Whatever messages and quiet-period ends reach the loop, the next tick
/// rebuilds (`on_tick` returns the rebuild owed) exactly when a change
/// arrived since the previous tick; and the loop stops for good once the
/// channel has closed.
pub proof fn law_tick_rebuilds_iff_changed(d: Debouncer, es: Seq<LoopEvent>)
    ensures
        after_events(d, es).pending_rebuild == changed_since_tick(d.pending_rebuild, es),
        after_events(d, es).channel_alive == (d.channel_alive && forall|j: int|
            0 <= j < es.len() ==> !closes(#[trigger] es[j])),
    decreases es.len(),
{
    if es.len() > 0 {
        let init = es.drop_last();
        let n = es.len() - 1;
        let e = es.last();
        law_tick_rebuilds_iff_changed(d, init);
        assert forall|j: int| 0 <= j < n implies #[trigger] es[j] == init[j] by {}
        // The channel.
        if (d.channel_alive && forall|j: int| 0 <= j < es.len() ==> !closes(#[trigger] es[j])) {
            assert forall|j: int| 0 <= j < init.len() implies !closes(#[trigger] init[j]) by {
                assert(es[j] == init[j]);
            }
            assert(!closes(es[n]));
        }
        if !(forall|j: int| 0 <= j < es.len() ==> !closes(#[trigger] es[j])) {
            let k = choose|j: int| 0 <= j < es.len() && closes(#[trigger] es[j]);
            if k < n {
                assert(closes(init[k]));
            }
        }
        // The rebuild owed.
        let now = changed_since_tick(d.pending_rebuild, es);
        let was = changed_since_tick(d.pending_rebuild, init);
        match e {
            LoopEvent::Tick => {
                assert(es[n] is Tick);
                if now {
                    if exists|i: int|
                        0 <= i < es.len() && brings_change(#[trigger] es[i]) && forall|j: int|
                            i < j < es.len() ==> !(#[trigger] es[j] is Tick) {
                        let i = choose|i: int|
                            0 <= i < es.len() && brings_change(#[trigger] es[i]) && forall|j: int|
                                i < j < es.len() ==> !(#[trigger] es[j] is Tick);
                        if i < n {
                            assert(!(es[n] is Tick));
                        }
                    } else {
                        assert(!(es[n] is Tick));
                    }
                }
            },
            LoopEvent::Message(Some(_)) => {
                assert(brings_change(es[n]));
                assert forall|j: int| n < j < es.len() implies !(#[trigger] es[j] is Tick) by {}
            },
            LoopEvent::Message(None) => {
                assert(!(es[n] is Tick) && !brings_change(es[n]));
                if was {
                    if exists|i: int|
                        0 <= i < init.len() && brings_change(#[trigger] init[i]) && forall|j: int|
                            i < j < init.len() ==> !(#[trigger] init[j] is Tick) {
                        let i = choose|i: int|
                            0 <= i < init.len() && brings_change(#[trigger] init[i]) && forall|j: int|
                                i < j < init.len() ==> !(#[trigger] init[j] is Tick);
                        assert(brings_change(es[i]));
                        assert forall|j: int| i < j < es.len() implies !(#[trigger] es[j] is Tick) by {
                            if j < n {
                                assert(es[j] == init[j]);
                            }
                        }
                    } else {
                        assert forall|j: int| 0 <= j < es.len() implies !(#[trigger] es[j] is Tick) by {
                            if j < n {
                                assert(es[j] == init[j]);
                            }
                        }
                    }
                }
                if now {
                    if exists|i: int|
                        0 <= i < es.len() && brings_change(#[trigger] es[i]) && forall|j: int|
                            i < j < es.len() ==> !(#[trigger] es[j] is Tick) {
                        let i = choose|i: int|
                            0 <= i < es.len() && brings_change(#[trigger] es[i]) && forall|j: int|
                                i < j < es.len() ==> !(#[trigger] es[j] is Tick);
                        assert(i < n);
                        assert(brings_change(init[i]));
                        assert forall|j: int| i < j < init.len() implies !(#[trigger] init[j] is Tick) by {
                            assert(!(es[j] is Tick));
                        }
                    } else {
                        assert forall|j: int| 0 <= j < init.len() implies !(#[trigger] init[j] is Tick) by {
                            assert(!(es[j] is Tick));
                        }
                    }
                }
            },
        }
    } else {
        assert(after_events(d, es) == d);
    }
}

} // verus!
