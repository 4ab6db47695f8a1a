//! Buffer for incoming commands.
//!
//! The buffer accumulates stamped commands and yields, for each tick, the
//! commands due at or before that tick, sorted by the deterministic order
//! (tick, then player id, then sequence). Sequence numbers are assigned
//! in call order regardless of tick value; they are the tie-break channel
//! that keeps the order total. A command whose tick has already passed is
//! not dropped: it is returned by the next drain.

use vstd::prelude::*;
use vstd::seq_lib::group_to_multiset_ensures;
use vstd::seq_lib::to_multiset_build;

use crate::commands::{cmd_le, cmd_precedes, sorted_cmds, GameCommand, StampedCommand};
use crate::ids::PlayerId;

verus! {

/// The commands with `tick <= t`, in buffer order.
pub open spec fn due_commands(s: Seq<StampedCommand>, t: u64) -> Seq<StampedCommand> {
    s.filter(|c: StampedCommand| c.tick <= t)
}

/// The commands with `tick > t`, in buffer order.
pub open spec fn late_kept_commands(s: Seq<StampedCommand>, t: u64) -> Seq<StampedCommand> {
    s.filter(|c: StampedCommand| c.tick > t)
}

/// Buffer for incoming commands.
pub struct CommandBuffer {
    commands: Vec<StampedCommand>,
    command_sequence: u64,
}

impl CommandBuffer {
    /// The buffered commands, in the order they were pushed.
    pub closed spec fn pending(&self) -> Seq<StampedCommand> {
        self.commands@
    }

    /// The sequence number the next pushed command will receive.
    pub closed spec fn next_sequence(&self) -> u64 {
        self.command_sequence
    }

    /// Every buffered command carries a sequence number assigned by this
    /// buffer, hence below the next number to be handed out.
    pub closed spec fn wf(&self) -> bool {
        forall|i: int|
            0 <= i < self.commands@.len() ==> (#[trigger] self.commands@[i]).sequence
                < self.command_sequence
    }

    pub fn new() -> (r: Self)
        ensures
            r.wf(),
            r.pending() == Seq::<StampedCommand>::empty(),
            r.next_sequence() == 0,
    {
        CommandBuffer { commands: Vec::new(), command_sequence: 0 }
    }

    /// Add a command to the buffer. The command's stamp is replaced by the
    /// next buffer-global sequence number, whatever tick it names.
    pub fn push(&mut self, command: StampedCommand)
        requires
            old(self).wf(),
            old(self).next_sequence() < u64::MAX,
        ensures
            final(self).wf(),
            final(self).pending() == old(self).pending().push(
                (StampedCommand { sequence: old(self).next_sequence(), ..command }),
            ),
            final(self).next_sequence() == old(self).next_sequence() + 1,
    {
        let stamped = StampedCommand {
            tick: command.tick,
            player_id: command.player_id,
            sequence: self.command_sequence,
            command: command.command,
        };
        self.command_sequence = self.command_sequence + 1;
        self.commands.push(stamped);
    }

    /// Create and push a command for the given tick.
    pub fn push_command(&mut self, tick: u64, player_id: PlayerId, command: GameCommand)
        requires
            old(self).wf(),
            old(self).next_sequence() < u64::MAX,
        ensures
            final(self).wf(),
            final(self).pending() == old(self).pending().push(
                (StampedCommand { tick, player_id, sequence: old(self).next_sequence(), command }),
            ),
            final(self).next_sequence() == old(self).next_sequence() + 1,
    {
        let stamped = StampedCommand {
            tick,
            player_id,
            sequence: self.command_sequence,
            command,
        };
        self.command_sequence = self.command_sequence + 1;
        self.commands.push(stamped);
    }

    /// Drain all commands due at or before `tick`, sorted deterministically.
    ///
    /// Exactly the commands with `tick <= t` leave the buffer — including
    /// "late" commands whose target tick has already passed — and exactly
    /// the commands with `tick > t` remain, in their original order.
    pub fn drain_for_tick(&mut self, tick: u64) -> (r: Vec<StampedCommand>)
        requires
            old(self).wf(),
        ensures
            final(self).wf(),
            final(self).next_sequence() == old(self).next_sequence(),
            final(self).pending() == late_kept_commands(old(self).pending(), tick),
            sorted_cmds(r@),
            r@.to_multiset() == due_commands(old(self).pending(), tick).to_multiset(),
    {
        broadcast use group_to_multiset_ensures;

        let ghost orig: Seq<StampedCommand> = self.commands@;
        let mut due: Vec<StampedCommand> = Vec::new();
        let mut rest: Vec<StampedCommand> = Vec::new();
        let ghost mut i: int = 0;
        while self.commands.len() > 0
            invariant
                0 <= i <= orig.len(),
                self.command_sequence == old(self).next_sequence(),
                self.commands@ =~= orig.subrange(i, orig.len() as int),
                rest@ =~= late_kept_commands(orig.subrange(0, i), tick),
                sorted_cmds(due@),
                due@.to_multiset() == due_commands(orig.subrange(0, i), tick).to_multiset(),
                forall|k: int|
                    0 <= k < orig.len() ==> (#[trigger] orig[k]).sequence
                        < self.command_sequence,
            decreases self.commands@.len(),
        {
            let c = self.commands.remove(0);
            proof {
                assert(c == orig[i]);
                assert(orig.subrange(0, i + 1) =~= orig.subrange(0, i).push(c));
                lemma_split_push(orig.subrange(0, i), c, tick);
            }
            if c.tick <= tick {
                proof {
                    let f = due_commands(orig.subrange(0, i), tick);
                    to_multiset_build(f, c);
                    assert(f.push(c).to_multiset() == f.to_multiset().insert(c));
                }
                sorted_insert(&mut due, c);
            } else {
                rest.push(c);
            }
            proof {
                i = i + 1;
            }
        }
        proof {
            assert(orig.subrange(0, i) =~= orig);
            lemma_late_kept_elements(orig, tick);
            assert forall|k: int| 0 <= k < rest@.len() implies (#[trigger] rest@[k]).sequence
                < self.command_sequence by {
                assert(orig.contains(late_kept_commands(orig, tick)[k]));
                let j = choose|j: int| 0 <= j < orig.len() && orig[j] == rest@[k];
                assert(orig[j].sequence < self.command_sequence);
            }
        }
        self.commands = rest;
        due
    }

    /// Check if there are any pending commands.
    pub fn is_empty(&self) -> (r: bool)
        ensures
            r == (self.pending().len() == 0),
    {
        self.commands.is_empty()
    }

    /// Get the number of pending commands.
    pub fn len(&self) -> (r: usize)
        ensures
            r == self.pending().len(),
    {
        self.commands.len()
    }
}

impl Default for CommandBuffer {
    fn default() -> (r: Self)
        ensures
            r.wf(),
            r.pending() == Seq::<StampedCommand>::empty(),
            r.next_sequence() == 0,
    {
        CommandBuffer::new()
    }
}

/// Appending one element to a sequence extends its due part or its kept
/// part by that element, according to the element's tick.
proof fn lemma_split_push(s: Seq<StampedCommand>, x: StampedCommand, t: u64)
    ensures
        x.tick <= t ==> due_commands(s.push(x), t) =~= due_commands(s, t).push(x),
        x.tick <= t ==> late_kept_commands(s.push(x), t) =~= late_kept_commands(s, t),
        x.tick > t ==> due_commands(s.push(x), t) =~= due_commands(s, t),
        x.tick > t ==> late_kept_commands(s.push(x), t) =~= late_kept_commands(s, t).push(x),
{
    reveal(Seq::filter);
    assert(s.push(x).drop_last() =~= s);
    assert(s.push(x).last() == x);
}

/// Every command in the kept part of a buffer came from that buffer.
proof fn lemma_late_kept_elements(s: Seq<StampedCommand>, t: u64)
    ensures
        forall|k: int|
            0 <= k < late_kept_commands(s, t).len() ==> s.contains(
                #[trigger] late_kept_commands(s, t)[k],
            ),
    decreases s.len(),
{
    reveal(Seq::filter);
    if s.len() == 0 {
    } else {
        let prefix = s.drop_last();
        lemma_late_kept_elements(prefix, t);
        let f = late_kept_commands(s, t);
        let fp = late_kept_commands(prefix, t);
        assert(s.drop_last() =~= prefix);
        assert forall|k: int| 0 <= k < f.len() implies s.contains(f[k]) by {
            if s.last().tick > t {
                assert(f =~= fp.push(s.last()));
            } else {
                assert(f =~= fp);
            }
            if k < fp.len() {
                assert(f[k] == fp[k]);
                assert(prefix.contains(fp[k]));
                let j = choose|j: int| 0 <= j < prefix.len() && prefix[j] == fp[k];
                assert(s[j] == fp[k]);
            } else {
                assert(f[k] == s.last());
                assert(s[s.len() - 1] == s.last());
            }
        }
    }
}

/// Insert a command into a sorted vector, keeping it sorted.
fn sorted_insert(out: &mut Vec<StampedCommand>, c: StampedCommand)
    requires
        sorted_cmds(old(out)@),
    ensures
        sorted_cmds(final(out)@),
        final(out)@.to_multiset() == old(out)@.to_multiset().insert(c),
{
    broadcast use group_to_multiset_ensures;

    let ghost orig: Seq<StampedCommand> = out@;
    let mut p = out.len();
    while p > 0 && !cmd_precedes(&out[p - 1], &c)
        invariant
            p <= out@.len(),
            out@ =~= orig,
            sorted_cmds(orig),
            forall|k: int| p <= k < orig.len() ==> !cmd_le(#[trigger] orig[k], c),
        decreases p,
    {
        p = p - 1;
    }
    let ghost pos: int = p as int;
    out.insert(p, c);
    proof {
        let s = orig.insert(pos, c);
        assert forall|a: int, b: int| 0 <= a < b < s.len() implies cmd_le(s[a], s[b]) by {
            if a < pos && b == pos {
                assert(cmd_le(orig[pos - 1], c));
                assert(s[a] == orig[a]);
                if a < pos - 1 {
                    assert(cmd_le(orig[a], orig[pos - 1]));
                }
            } else if a == pos && b > pos {
                assert(s[b] == orig[b - 1]);
                assert(!cmd_le(orig[b - 1], c));
            } else if a < pos && b > pos {
                assert(s[a] == orig[a] && s[b] == orig[b - 1]);
            } else {
                assert(a != pos && b != pos);
            }
        }
    }
}

/// Sort a list of stamped commands into the deterministic order: tick
/// ascending, then player id ascending, then sequence ascending. The
/// result holds exactly the same commands.
pub fn sort_commands(commands: &mut Vec<StampedCommand>)
    ensures
        sorted_cmds(final(commands)@),
        final(commands)@.to_multiset() == old(commands)@.to_multiset(),
{
    let ghost orig = commands@;
    let mut sorted: Vec<StampedCommand> = Vec::new();
    let ghost mut i: int = 0;
    proof {
        assert(sorted@ =~= orig.subrange(0, 0));
    }
    while commands.len() > 0
        invariant
            0 <= i <= orig.len(),
            commands@ =~= orig.subrange(i, orig.len() as int),
            sorted_cmds(sorted@),
            sorted@.to_multiset() == orig.subrange(0, i).to_multiset(),
        decreases commands@.len(),
    {
        let c = commands.remove(0);
        proof {
            assert(c == orig[i]);
            assert(orig.subrange(0, i + 1) =~= orig.subrange(0, i).push(c));
            to_multiset_build(orig.subrange(0, i), c);
        }
        sorted_insert(&mut sorted, c);
        proof {
            i = i + 1;
        }
    }
    proof {
        assert(orig.subrange(0, i) =~= orig);
    }
    *commands = sorted;
}

/// Late-command delivery: a command already in the buffer whose stamp is
/// at or before the drained tick is among the drained commands — it is
/// delivered late rather than dropped.
pub proof fn lemma_late_command_delivered(s: Seq<StampedCommand>, c: StampedCommand, t: u64)
    requires
        s.contains(c),
        c.tick <= t,
    ensures
        due_commands(s, t).to_multiset().count(c) > 0,
{
    broadcast use group_to_multiset_ensures;

    let i = choose|i: int| 0 <= i < s.len() && s[i] == c;
    Seq::lemma_filter_contains(s, |x: StampedCommand| x.tick <= t, i);
    let d = due_commands(s, t);
    assert(d.contains(c));
}

} // verus!
