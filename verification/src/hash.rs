//! World state hashing for determinism validation.
//!
//! Two independent simulation runs (a host and a replay validator, say)
//! confirm they have not diverged by comparing digests of their
//! snapshots. Beside the built-in digest, a snapshot can be digested
//! with seahash for better distribution: the observable counters are
//! serialized to a canonical little-endian byte stream and that stream
//! is hashed.

use vstd::prelude::*;

use crate::snapshot::{
    i64_bits, i64_bits_exec, snapshot_hash, EntitySnapshot, PlayerSnapshot, QueueItem,
    WorldSnapshot,
};

verus! {

/// The digest seahash assigns to a byte string. Seahash uses fixed
/// keys, so the digest is a pure function of the bytes, identical in
/// every process and on every machine.
pub uninterp spec fn seahash_of(data: Seq<u8>) -> u64;

/// Relies on `seahash::hash`: the digest is computed from the buffer
/// contents alone, with prechosen keys.
#[verifier::external_body]
fn seahash_digest(data: &Vec<u8>) -> (r: u64)
    ensures
        r == seahash_of(data@),
{
    seahash::hash(data.as_slice())
}

/// A 64-bit value as eight bytes, least significant first.
#[verifier::opaque]
pub open spec fn u64_le(w: u64) -> Seq<u8> {
    seq![
        (w % 256) as u8,
        (w / 256 % 256) as u8,
        (w / 0x1_0000 % 256) as u8,
        (w / 0x100_0000 % 256) as u8,
        (w / 0x1_0000_0000 % 256) as u8,
        (w / 0x100_0000_0000 % 256) as u8,
        (w / 0x1_0000_0000_0000 % 256) as u8,
        (w / 0x100_0000_0000_0000 % 256) as u8,
    ]
}

/// A 32-bit value as four bytes, least significant first.
#[verifier::opaque]
pub open spec fn u32_le(w: u32) -> Seq<u8> {
    seq![
        (w % 256) as u8,
        (w / 256 % 256) as u8,
        (w / 0x1_0000 % 256) as u8,
        (w / 0x100_0000 % 256) as u8,
    ]
}

/// The remaining-ticks counters of queued items, in queue order.
pub open spec fn queue_items_bytes(items: Seq<QueueItem>) -> Seq<u8>
    decreases items.len(),
{
    if items.len() == 0 {
        Seq::<u8>::empty()
    } else {
        u32_le(items[0].ticks_remaining) + queue_items_bytes(items.drop_first())
    }
}

/// One entity's observable counters serialized: identifier, fixed-point
/// position, health pair, remaining resources, gatherer carry state,
/// production queue state.
#[verifier::opaque]
pub open spec fn entity_bytes(e: EntitySnapshot) -> Seq<u8> {
    u64_le(e.id.0) + u64_le(i64_bits(e.position@[0])) + u64_le(i64_bits(e.position@[1]))
        + u64_le(i64_bits(e.position@[2])) + (match e.health {
        Some(h) => u32_le(h.0) + u32_le(h.1),
        None => Seq::<u8>::empty(),
    }) + (match e.resource_remaining {
        Some(r) => u32_le(r),
        None => Seq::<u8>::empty(),
    }) + (match e.gatherer_state {
        Some(g) => u32_le(g.carry_amount) + seq![
            if g.is_returning {
                1u8
            } else {
                0u8
            },
        ],
        None => Seq::<u8>::empty(),
    }) + (match e.production_queue {
        Some(q) => u64_le(q.items@.len() as u64) + queue_items_bytes(q.items@),
        None => Seq::<u8>::empty(),
    })
}

/// A list of entities serialized, in list order.
pub open spec fn entities_bytes(s: Seq<EntitySnapshot>) -> Seq<u8>
    decreases s.len(),
{
    if s.len() == 0 {
        Seq::<u8>::empty()
    } else {
        entity_bytes(s[0]) + entities_bytes(s.drop_first())
    }
}

/// One player's observable counters serialized.
#[verifier::opaque]
pub open spec fn player_bytes(p: PlayerSnapshot) -> Seq<u8> {
    seq![p.id.0] + u32_le(p.resources.food) + u32_le(p.resources.wood) + u32_le(
        p.resources.gold,
    ) + u32_le(p.resources.stone) + u32_le(p.population) + u32_le(p.population_cap)
}

/// A list of players serialized, in list order.
pub open spec fn players_bytes(s: Seq<PlayerSnapshot>) -> Seq<u8>
    decreases s.len(),
{
    if s.len() == 0 {
        Seq::<u8>::empty()
    } else {
        player_bytes(s[0]) + players_bytes(s.drop_first())
    }
}

/// The canonical byte stream of a whole snapshot: the tick, then every
/// entity in list order, then every player in list order.
pub open spec fn snapshot_stream(s: WorldSnapshot) -> Seq<u8> {
    u64_le(s.tick) + entities_bytes(s.entities@) + players_bytes(s.players@)
}

/// Append a 64-bit value, least significant byte first.
fn push_u64(out: &mut Vec<u8>, w: u64)
    ensures
        final(out)@ == old(out)@ + u64_le(w),
{
    proof {
        reveal(u64_le);
    }
    out.push((w % 256) as u8);
    out.push((w / 256 % 256) as u8);
    out.push((w / 0x1_0000 % 256) as u8);
    out.push((w / 0x100_0000 % 256) as u8);
    out.push((w / 0x1_0000_0000 % 256) as u8);
    out.push((w / 0x100_0000_0000 % 256) as u8);
    out.push((w / 0x1_0000_0000_0000 % 256) as u8);
    out.push((w / 0x100_0000_0000_0000 % 256) as u8);
    proof {
        assert(final(out)@ =~= old(out)@ + u64_le(w));
    }
}

/// Append a 32-bit value, least significant byte first.
fn push_u32(out: &mut Vec<u8>, w: u32)
    ensures
        final(out)@ == old(out)@ + u32_le(w),
{
    proof {
        reveal(u32_le);
    }
    out.push((w % 256) as u8);
    out.push((w / 256 % 256) as u8);
    out.push((w / 0x1_0000 % 256) as u8);
    out.push((w / 0x100_0000 % 256) as u8);
    proof {
        assert(final(out)@ =~= old(out)@ + u32_le(w));
    }
}

/// Append one entity's serialized counters.
#[verifier::rlimit(60)]
fn push_entity(out: &mut Vec<u8>, e: &EntitySnapshot)
    ensures
        final(out)@ == old(out)@ + entity_bytes(*e),
{
    proof {
        reveal(entity_bytes);
    }
    push_u64(out, e.id.0);
    push_u64(out, i64_bits_exec(e.position[0]));
    push_u64(out, i64_bits_exec(e.position[1]));
    push_u64(out, i64_bits_exec(e.position[2]));
    match &e.health {
        Some(h) => {
            push_u32(out, h.0);
            push_u32(out, h.1);
        },
        None => {},
    }
    match &e.resource_remaining {
        Some(r) => {
            push_u32(out, *r);
        },
        None => {},
    }
    match &e.gatherer_state {
        Some(g) => {
            push_u32(out, g.carry_amount);
            out.push(
                if g.is_returning {
                    1u8
                } else {
                    0u8
                },
            );
        },
        None => {},
    }
    match &e.production_queue {
        Some(q) => {
            push_u64(out, q.items.len() as u64);
            push_queue_items(out, &q.items);
        },
        None => {},
    }
    proof {
        assert(final(out)@ =~= old(out)@ + entity_bytes(*e));
    }
}

/// Append the remaining-ticks counters of queued items, in order.
fn push_queue_items(out: &mut Vec<u8>, items: &Vec<QueueItem>)
    ensures
        final(out)@ == old(out)@ + queue_items_bytes(items@),
{
    let ghost base = out@;
    let mut k: usize = 0;
    proof {
        assert(items@.subrange(0, items@.len() as int) =~= items@);
    }
    while k < items.len()
        invariant
            k <= items@.len(),
            out@ + queue_items_bytes(items@.subrange(k as int, items@.len() as int)) == base
                + queue_items_bytes(items@),
        decreases items@.len() - k,
    {
        let ghost rest = items@.subrange(k as int, items@.len() as int);
        proof {
            assert(rest[0] == items@[k as int]);
            assert(rest.drop_first() =~= items@.subrange(k + 1, items@.len() as int));
        }
        push_u32(out, items[k].ticks_remaining);
        proof {
            assert(out@ + queue_items_bytes(items@.subrange(k + 1, items@.len() as int))
                =~= base + queue_items_bytes(items@));
        }
        k = k + 1;
    }
    proof {
        assert(items@.subrange(items@.len() as int, items@.len() as int)
            =~= Seq::<QueueItem>::empty());
        assert(out@ + Seq::<u8>::empty() =~= out@);
    }
}

/// Append one player's serialized counters.
fn push_player(out: &mut Vec<u8>, p: &PlayerSnapshot)
    ensures
        final(out)@ == old(out)@ + player_bytes(*p),
{
    proof {
        reveal(player_bytes);
    }
    out.push(p.id.0);
    push_u32(out, p.resources.food);
    push_u32(out, p.resources.wood);
    push_u32(out, p.resources.gold);
    push_u32(out, p.resources.stone);
    push_u32(out, p.population);
    push_u32(out, p.population_cap);
    proof {
        assert(final(out)@ =~= old(out)@ + player_bytes(*p));
    }
}

/// Serialize a snapshot to its canonical byte stream.
fn serialize_snapshot(snapshot: &WorldSnapshot) -> (r: Vec<u8>)
    ensures
        r@ == snapshot_stream(*snapshot),
{
    let mut out: Vec<u8> = Vec::new();
    push_u64(&mut out, snapshot.tick);
    proof {
        assert(out@ =~= u64_le(snapshot.tick));
        assert(snapshot.entities@.subrange(0, snapshot.entities@.len() as int)
            =~= snapshot.entities@);
    }

    let ghost base = out@;
    let mut i: usize = 0;
    while i < snapshot.entities.len()
        invariant
            i <= snapshot.entities@.len(),
            out@ + entities_bytes(
                snapshot.entities@.subrange(i as int, snapshot.entities@.len() as int),
            ) == base + entities_bytes(snapshot.entities@),
        decreases snapshot.entities@.len() - i,
    {
        let ghost rest = snapshot.entities@.subrange(i as int, snapshot.entities@.len() as int);
        proof {
            assert(rest[0] == snapshot.entities@[i as int]);
            assert(rest.drop_first() =~= snapshot.entities@.subrange(
                i + 1,
                snapshot.entities@.len() as int,
            ));
        }
        push_entity(&mut out, &snapshot.entities[i]);
        proof {
            assert(out@ + entities_bytes(
                snapshot.entities@.subrange(i + 1, snapshot.entities@.len() as int),
            ) =~= base + entities_bytes(snapshot.entities@));
        }
        i = i + 1;
    }
    proof {
        assert(snapshot.entities@.subrange(
            snapshot.entities@.len() as int,
            snapshot.entities@.len() as int,
        ) =~= Seq::<EntitySnapshot>::empty());
        assert(out@ + Seq::<u8>::empty() =~= out@);
        assert(snapshot.players@.subrange(0, snapshot.players@.len() as int)
            =~= snapshot.players@);
    }

    let ghost base2 = out@;
    let mut j: usize = 0;
    while j < snapshot.players.len()
        invariant
            j <= snapshot.players@.len(),
            out@ + players_bytes(
                snapshot.players@.subrange(j as int, snapshot.players@.len() as int),
            ) == base2 + players_bytes(snapshot.players@),
        decreases snapshot.players@.len() - j,
    {
        let ghost rest = snapshot.players@.subrange(j as int, snapshot.players@.len() as int);
        proof {
            assert(rest[0] == snapshot.players@[j as int]);
            assert(rest.drop_first() =~= snapshot.players@.subrange(
                j + 1,
                snapshot.players@.len() as int,
            ));
        }
        push_player(&mut out, &snapshot.players[j]);
        proof {
            assert(out@ + players_bytes(
                snapshot.players@.subrange(j + 1, snapshot.players@.len() as int),
            ) =~= base2 + players_bytes(snapshot.players@));
        }
        j = j + 1;
    }
    proof {
        assert(snapshot.players@.subrange(
            snapshot.players@.len() as int,
            snapshot.players@.len() as int,
        ) =~= Seq::<PlayerSnapshot>::empty());
        assert(out@ + Seq::<u8>::empty() =~= out@);
        assert(out@ =~= snapshot_stream(*snapshot));
    }
    out
}

/// Compute the built-in stable digest of a world snapshot.
pub fn compute_world_hash(snapshot: &WorldSnapshot) -> (r: u64)
    ensures
        r == snapshot_hash(*snapshot),
{
    snapshot.compute_hash()
}

/// Compute a digest using seahash for better distribution: the seahash
/// digest of the snapshot's canonical byte stream.
pub fn compute_world_hash_seahash(snapshot: &WorldSnapshot) -> (r: u64)
    ensures
        r == seahash_of(snapshot_stream(*snapshot)),
{
    let bytes = serialize_snapshot(snapshot);
    seahash_digest(&bytes)
}

/// Observable equality of two snapshots, ignoring selection state:
/// same tick, and entity by entity the same identifier, position,
/// health and remaining resources, and player by player the same
/// identifier, resources and population.
pub open spec fn snapshots_equal_spec(a: WorldSnapshot, b: WorldSnapshot) -> bool {
    &&& a.tick == b.tick
    &&& a.entities@.len() == b.entities@.len()
    &&& a.players@.len() == b.players@.len()
    &&& forall|i: int|
        0 <= i < a.entities@.len() ==> {
            let x = #[trigger] a.entities@[i];
            let y = b.entities@[i];
            x.id == y.id && x.position@ == y.position@ && x.health == y.health
                && x.resource_remaining == y.resource_remaining
        }
    &&& forall|i: int|
        0 <= i < a.players@.len() ==> {
            let x = #[trigger] a.players@[i];
            let y = b.players@[i];
            x.id == y.id && x.resources == y.resources && x.population == y.population
        }
}

/// Compare two snapshots for observable equality (ignoring selection
/// state).
pub fn snapshots_equal(a: &WorldSnapshot, b: &WorldSnapshot) -> (r: bool)
    ensures
        r == snapshots_equal_spec(*a, *b),
{
    if a.tick != b.tick {
        return false;
    }
    if a.entities.len() != b.entities.len() {
        return false;
    }
    if a.players.len() != b.players.len() {
        return false;
    }

    let mut i: usize = 0;
    while i < a.entities.len()
        invariant
            i <= a.entities@.len(),
            a.entities@.len() == b.entities@.len(),
            forall|k: int|
                0 <= k < i ==> {
                    let x = #[trigger] a.entities@[k];
                    let y = b.entities@[k];
                    x.id == y.id && x.position@ == y.position@ && x.health == y.health
                        && x.resource_remaining == y.resource_remaining
                },
        decreases a.entities@.len() - i,
    {
        let x = &a.entities[i];
        let y = &b.entities[i];
        if x.id.0 != y.id.0 {
            return false;
        }
        if x.position[0] != y.position[0] || x.position[1] != y.position[1] || x.position[2]
            != y.position[2] {
            proof {
                assert(x.position@ != y.position@);
            }
            return false;
        }
        let health_eq = match (&x.health, &y.health) {
            (Some(hx), Some(hy)) => hx.0 == hy.0 && hx.1 == hy.1,
            (None, None) => true,
            _ => false,
        };
        if !health_eq {
            return false;
        }
        let remaining_eq = match (&x.resource_remaining, &y.resource_remaining) {
            (Some(rx), Some(ry)) => *rx == *ry,
            (None, None) => true,
            _ => false,
        };
        if !remaining_eq {
            return false;
        }
        proof {
            assert(x.position@ =~= y.position@);
        }
        i = i + 1;
    }

    let mut j: usize = 0;
    while j < a.players.len()
        invariant
            j <= a.players@.len(),
            a.players@.len() == b.players@.len(),
            snapshots_equal_spec(*a, *b) <==> (forall|k: int|
                j <= k < a.players@.len() ==> {
                    let x = #[trigger] a.players@[k];
                    let y = b.players@[k];
                    x.id == y.id && x.resources == y.resources && x.population == y.population
                }),
        decreases a.players@.len() - j,
    {
        let x = &a.players[j];
        let y = &b.players[j];
        if x.id.0 != y.id.0 {
            return false;
        }
        if x.resources != y.resources {
            return false;
        }
        if x.population != y.population {
            return false;
        }
        j = j + 1;
    }
    true
}

} // verus!
