//! Debouncing of raw key samples: one eight-bit history per key, in which a
//! run of three equal samples after the opposite level makes an edge.

use vstd::prelude::*;

verus! {

/// The bits of a history that decide on an edge: the two oldest and the three
/// newest.
pub const EDGE_MASK: u8 = 0b1100_0111;

/// Under the mask: released at the old end, pressed three times at the new.
pub const PRESS_PATTERN: u8 = 0b0000_0111;

/// Under the mask: pressed at the old end, released three times at the new.
pub const RELEASE_PATTERN: u8 = 0b1100_0000;

/// The history that a press edge leaves.
pub const HELD_DOWN: u8 = 0xFF;

/// The history that a release edge leaves, and the one that a key starts with.
pub const AT_REST: u8 = 0x00;

/// What a sample made of a key's history.
#[derive(Clone, Copy, Debug, PartialEq, Eq, Structural)]
pub enum Edge {
    NoEdge,
    PressEdge,
    ReleaseEdge,
}

/// A history with one more sample at its new end; the oldest sample leaves.
pub open spec fn shifted(register: u8, pressed: bool) -> u8 {
    ((register << 1) | (if pressed {
        1u8
    } else {
        0u8
    })) & 0xFF
}

/// The edge that a history shows once the sample is in.
pub open spec fn edge_of(register: u8) -> Edge {
    if register & EDGE_MASK == PRESS_PATTERN {
        Edge::PressEdge
    } else if register & EDGE_MASK == RELEASE_PATTERN {
        Edge::ReleaseEdge
    } else {
        Edge::NoEdge
    }
}

/// The history that is kept once the sample is in: an edge fills it with the
/// new level, and without an edge it stays as shifted.
pub open spec fn settled(register: u8) -> u8 {
    match edge_of(register) {
        Edge::PressEdge => HELD_DOWN,
        Edge::ReleaseEdge => AT_REST,
        Edge::NoEdge => register,
    }
}

/// The history of a key after a run of samples, oldest first.
pub open spec fn fed(register: u8, samples: Seq<bool>) -> u8
    decreases samples.len(),
{
    if samples.len() == 0 {
        register
    } else {
        settled(shifted(fed(register, samples.drop_last()), samples.last()))
    }
}

/// The edges that a run of samples makes, one for each sample.
pub open spec fn edges(register: u8, samples: Seq<bool>) -> Seq<Edge> {
    Seq::new(
        samples.len(),
        |i: int| edge_of(shifted(fed(register, samples.take(i)), samples[i])),
    )
}

/// The edge that a sample of one key makes of the histories of all keys: the
/// edge that the key's history shows once the sample is in, and none for a
/// key that has no history.
pub open spec fn edge_at(registers: Seq<u8>, key_id: int, pressed: bool) -> Edge {
    if 0 <= key_id < registers.len() {
        edge_of(shifted(registers[key_id], pressed))
    } else {
        Edge::NoEdge
    }
}

/// The histories of all keys after a sample of one: the key's history with
/// the sample in and settled, and the others as they were.
pub open spec fn sampled(registers: Seq<u8>, key_id: int, pressed: bool) -> Seq<u8> {
    if 0 <= key_id < registers.len() {
        registers.update(key_id, settled(shifted(registers[key_id], pressed)))
    } else {
        registers
    }
}

/// One history for each key, by the key's number.
#[derive(Debug)]
pub struct InputShaper {
    registers: Vec<u8>,
}

impl View for InputShaper {
    type V = Seq<u8>;

    closed spec fn view(&self) -> Seq<u8> {
        self.registers@
    }
}

impl InputShaper {
    /// A shaper for the keys `0..keys`, each at rest.
    pub fn new(keys: usize) -> (shaper: Self)
        ensures
            shaper@ == Seq::new(keys as nat, |i: int| AT_REST),
    {
        let mut registers: Vec<u8> = Vec::new();
        let mut i: usize = 0;
        while i < keys
            invariant
                i <= keys,
                registers@ == Seq::new(i as nat, |j: int| AT_REST),
            decreases keys - i,
        {
            registers.push(AT_REST);
            i += 1;
        }
        InputShaper { registers }
    }

    /// How many keys the shaper has.
    pub fn keys(&self) -> (n: usize)
        ensures
            n == self@.len(),
    {
        self.registers.len()
    }

    /// The history of a key, and nothing for a key that the shaper has not.
    pub fn register(&self, key_id: usize) -> (register: Option<u8>)
        ensures
            register == if key_id < self@.len() {
                Some(self@[key_id as int])
            } else {
                None
            },
    {
        if key_id < self.registers.len() {
            Some(self.registers[key_id])
        } else {
            None
        }
    }

    /// Takes one sample of a key: shifts it into the key's history and says
    /// which edge the history then shows. A key that the shaper has not makes
    /// no edge, and nothing changes.
    pub fn sample(&mut self, key_id: usize, raw_pressed: bool) -> (edge: Edge)
        ensures
            edge == edge_at(old(self)@, key_id as int, raw_pressed),
            final(self)@ == sampled(old(self)@, key_id as int, raw_pressed),
    {
        if key_id >= self.registers.len() {
            return Edge::NoEdge;
        }
        let bit: u8 = if raw_pressed {
            1
        } else {
            0
        };
        let register: u8 = ((self.registers[key_id] << 1) | bit) & 0xFF;
        let masked: u8 = register & EDGE_MASK;
        if masked == PRESS_PATTERN {
            self.registers[key_id] = HELD_DOWN;
            Edge::PressEdge
        } else if masked == RELEASE_PATTERN {
            self.registers[key_id] = AT_REST;
            Edge::ReleaseEdge
        } else {
            self.registers[key_id] = register;
            Edge::NoEdge
        }
    }
}

/// Shifting doubles the history, drops what no longer fits in eight bits and
/// puts the sample in the lowest bit.
pub proof fn lemma_shifted_is_arithmetic(register: u8, pressed: bool)
    ensures
        shifted(register, pressed) == (2 * register + if pressed {
            1int
        } else {
            0int
        }) % 256,
{
    let bit: u8 = if pressed {
        1
    } else {
        0
    };
    assert(((register << 1) | bit) & 0xFF == (2 * register + bit) % 256) by (bit_vector)
        requires
            bit == 0 || bit == 1,
    ;
}

/// A history shows a press edge where its two oldest samples are released
/// and its three newest pressed, and a release edge where its two oldest are
/// pressed and its three newest released; the three in between do not count.
pub proof fn lemma_edge_is_arithmetic(register: u8)
    ensures
        edge_of(register) == Edge::PressEdge <==> register / 64 == 0 && register % 8 == 7,
        edge_of(register) == Edge::ReleaseEdge <==> register / 64 == 3 && register % 8 == 0,
{
    assert(register & 0b1100_0111 == 0b0000_0111 <==> register / 64 == 0 && register % 8 == 7)
        by (bit_vector);
    assert(register & 0b1100_0111 == 0b1100_0000 <==> register / 64 == 3 && register % 8 == 0)
        by (bit_vector);
}

/// What pressed samples make of the histories that a key goes through from
/// rest to held down.
proof fn lemma_press_steps()
    ensures
        shifted(0x00, true) == 0x01,
        shifted(0x01, true) == 0x03,
        shifted(0x03, true) == 0x07,
        shifted(0xFF, true) == 0xFF,
        edge_of(0x01) == Edge::NoEdge,
        edge_of(0x03) == Edge::NoEdge,
        edge_of(0x07) == Edge::PressEdge,
        edge_of(0xFF) == Edge::NoEdge,
{
    assert(((0x00u8 << 1) | 1u8) & 0xFF == 0x01) by (bit_vector);
    assert(((0x01u8 << 1) | 1u8) & 0xFF == 0x03) by (bit_vector);
    assert(((0x03u8 << 1) | 1u8) & 0xFF == 0x07) by (bit_vector);
    assert(((0xFFu8 << 1) | 1u8) & 0xFF == 0xFF) by (bit_vector);
    assert(0x01u8 & 0b1100_0111 == 0x01) by (bit_vector);
    assert(0x03u8 & 0b1100_0111 == 0x03) by (bit_vector);
    assert(0x07u8 & 0b1100_0111 == 0x07) by (bit_vector);
    assert(0xFFu8 & 0b1100_0111 == 0b1100_0111) by (bit_vector);
}

/// What released samples make of the histories that a key goes through from
/// held down to rest.
proof fn lemma_release_steps()
    ensures
        shifted(0xFF, false) == 0xFE,
        shifted(0xFE, false) == 0xFC,
        shifted(0xFC, false) == 0xF8,
        shifted(0x00, false) == 0x00,
        edge_of(0xFE) == Edge::NoEdge,
        edge_of(0xFC) == Edge::NoEdge,
        edge_of(0xF8) == Edge::ReleaseEdge,
        edge_of(0x00) == Edge::NoEdge,
{
    assert(((0xFFu8 << 1) | 0u8) & 0xFF == 0xFE) by (bit_vector);
    assert(((0xFEu8 << 1) | 0u8) & 0xFF == 0xFC) by (bit_vector);
    assert(((0xFCu8 << 1) | 0u8) & 0xFF == 0xF8) by (bit_vector);
    assert(((0x00u8 << 1) | 0u8) & 0xFF == 0x00) by (bit_vector);
    assert(0xFEu8 & 0b1100_0111 == 0b1100_0110) by (bit_vector);
    assert(0xFCu8 & 0b1100_0111 == 0b1100_0100) by (bit_vector);
    assert(0xF8u8 & 0b1100_0111 == 0b1100_0000) by (bit_vector);
    assert(0x00u8 & 0b1100_0111 == 0x00) by (bit_vector);
}

/// A key that is held down stays so under pressed samples and makes no edge;
/// a key at rest stays so under released samples and makes no edge.
pub proof fn lemma_level_holds()
    ensures
        edge_of(shifted(HELD_DOWN, true)) == Edge::NoEdge,
        settled(shifted(HELD_DOWN, true)) == HELD_DOWN,
        edge_of(shifted(AT_REST, false)) == Edge::NoEdge,
        settled(shifted(AT_REST, false)) == AT_REST,
{
    lemma_press_steps();
    lemma_release_steps();
}

/// A run of `n` samples of one level.
pub open spec fn steady(level: bool, n: nat) -> Seq<bool> {
    Seq::new(n, |i: int| level)
}

/// The history of a key at rest while it is then pressed without a break:
/// one and two samples fill the two lowest bits, the third fills it all, and
/// so it stays.
pub proof fn lemma_fed_steady_press(n: nat)
    ensures
        fed(AT_REST, steady(true, n)) == if n == 0 {
            AT_REST
        } else if n == 1 {
            0b0000_0001u8
        } else if n == 2 {
            0b0000_0011u8
        } else {
            HELD_DOWN
        },
    decreases n,
{
    if n > 0 {
        lemma_fed_steady_press((n - 1) as nat);
        assert(steady(true, n).drop_last() == steady(true, (n - 1) as nat));
        lemma_press_steps();
    }
}

/// The history of a key held down while it is then released without a break:
/// one and two samples clear the two lowest bits, the third clears it all,
/// and so it stays.
pub proof fn lemma_fed_steady_release(n: nat)
    ensures
        fed(HELD_DOWN, steady(false, n)) == if n == 0 {
            HELD_DOWN
        } else if n == 1 {
            0b1111_1110u8
        } else if n == 2 {
            0b1111_1100u8
        } else {
            AT_REST
        },
    decreases n,
{
    if n > 0 {
        lemma_fed_steady_release((n - 1) as nat);
        assert(steady(false, n).drop_last() == steady(false, (n - 1) as nat));
        lemma_release_steps();
    }
}

/// A key at rest that is then pressed without a break makes one press edge,
/// on the third sample, and is held down from then on.
pub proof fn lemma_sustained_press(n: nat)
    requires
        n >= 3,
    ensures
        fed(AT_REST, steady(true, n)) == HELD_DOWN,
        edges(AT_REST, steady(true, n)) == Seq::new(
            n,
            |i: int| if i == 2 {
                Edge::PressEdge
            } else {
                Edge::NoEdge
            },
        ),
{
    lemma_fed_steady_press(n);
    let made = edges(AT_REST, steady(true, n));
    assert forall|i: int| 0 <= i < n implies made[i] == if i == 2 {
        Edge::PressEdge
    } else {
        Edge::NoEdge
    } by {
        assert(steady(true, n).take(i) == steady(true, i as nat));
        lemma_fed_steady_press(i as nat);
        lemma_press_steps();
    }
}

/// A key held down that is then released without a break makes one release
/// edge, on the third sample, and is at rest from then on.
pub proof fn lemma_sustained_release(n: nat)
    requires
        n >= 3,
    ensures
        fed(HELD_DOWN, steady(false, n)) == AT_REST,
        edges(HELD_DOWN, steady(false, n)) == Seq::new(
            n,
            |i: int| if i == 2 {
                Edge::ReleaseEdge
            } else {
                Edge::NoEdge
            },
        ),
{
    lemma_fed_steady_release(n);
    let made = edges(HELD_DOWN, steady(false, n));
    assert forall|i: int| 0 <= i < n implies made[i] == if i == 2 {
        Edge::ReleaseEdge
    } else {
        Edge::NoEdge
    } by {
        assert(steady(false, n).take(i) == steady(false, i as nat));
        lemma_fed_steady_release(i as nat);
        lemma_release_steps();
    }
}

} // verus!
