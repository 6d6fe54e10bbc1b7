//! Timed modifiers on damage and resource gain.

use vstd::prelude::*;

verus! {

/// The kinds of timed modifier.
#[derive(Clone, Copy, Debug, PartialEq, Eq, Structural)]
pub enum BuffType {
    MalwareInjected,
    FirewallFortified,
    Overclock,
}

/// One active modifier and the turns it has left.
#[derive(Clone, Copy, Debug, PartialEq, Eq, Structural)]
pub struct Buff {
    buff_type: BuffType,
    duration: u32,
}

impl Buff {
    /// The kind of this buff.
    pub closed spec fn kind(&self) -> BuffType {
        self.buff_type
    }

    /// The turns this buff has left.
    pub closed spec fn remaining(&self) -> u32 {
        self.duration
    }

    /// A buff of the given kind that lasts `duration` turns.
    pub fn new(buff_type: BuffType, duration: u32) -> (r: Self)
        ensures
            r.kind() == buff_type,
            r.remaining() == duration,
    {
        Buff { buff_type, duration }
    }

    /// Lengthens the buff by `additional_duration` turns.
    pub fn add_duration(&mut self, additional_duration: u32)
        requires
            old(self).remaining() + additional_duration <= u32::MAX,
        ensures
            final(self).kind() == old(self).kind(),
            final(self).remaining() == old(self).remaining() + additional_duration,
    {
        self.duration = self.duration + additional_duration;
    }

    /// Takes one turn off the buff; an expired buff stays at zero.
    pub fn decrease_duration(&mut self)
        ensures
            final(self).kind() == old(self).kind(),
            final(self).remaining() == if old(self).remaining() > 0 {
                old(self).remaining() - 1
            } else {
                0
            },
    {
        if self.duration > 0 {
            self.duration = self.duration - 1;
        }
    }

    /// Whether no turn is left.
    pub fn has_expired(&self) -> (r: bool)
        ensures
            r == (self.remaining() == 0),
    {
        self.duration == 0
    }
}

/// The buffs of `s` as a map from kind to turns left; a later entry of a
/// kind overrides an earlier one.
pub closed spec fn as_map(s: Seq<Buff>) -> Map<BuffType, u32>
    decreases s.len(),
{
    if s.len() == 0 {
        Map::empty()
    } else {
        as_map(s.drop_last()).insert(s.last().buff_type, s.last().duration)
    }
}

/// No kind occurs twice in `s`.
pub closed spec fn distinct_kinds(s: Seq<Buff>) -> bool {
    forall|i: int, j: int| 0 <= i < j < s.len() ==> s[i].buff_type != s[j].buff_type
}

/// Some entry among the first `upto` of `source` has the kind of `buff` and
/// one turn more.
spec fn aged_from(source: Seq<Buff>, upto: int, buff: Buff) -> bool {
    exists|p: int|
        0 <= p < upto && #[trigger] source[p].buff_type == buff.buff_type && source[p].duration
            == buff.duration + 1
}

/// Some entry of `s` has the kind `kind`.
spec fn holds_kind(s: Seq<Buff>, kind: BuffType) -> bool {
    exists|j: int| 0 <= j < s.len() && #[trigger] s[j].buff_type == kind
}

proof fn lemma_as_map(s: Seq<Buff>)
    requires
        distinct_kinds(s),
    ensures
        forall|k: BuffType| #[trigger]
            as_map(s).contains_key(k) <==> exists|i: int|
                0 <= i < s.len() && #[trigger] s[i].buff_type == k,
        forall|i: int|
            0 <= i < s.len() ==> as_map(s).contains_key(#[trigger] s[i].buff_type) && as_map(
                s,
            )[s[i].buff_type] == s[i].duration,
    decreases s.len(),
{
    if s.len() > 0 {
        let t = s.drop_last();
        assert(distinct_kinds(t));
        lemma_as_map(t);
        assert forall|k: BuffType| #[trigger]
            as_map(s).contains_key(k) implies exists|i: int|
            0 <= i < s.len() && #[trigger] s[i].buff_type == k by {
            if k == s.last().buff_type {
                assert(s[s.len() - 1].buff_type == k);
            } else {
                assert(as_map(t).contains_key(k));
                let i = choose|i: int| 0 <= i < t.len() && #[trigger] t[i].buff_type == k;
                assert(s[i].buff_type == k);
            }
        }
        assert forall|i: int| 0 <= i < s.len() implies as_map(s).contains_key(
            #[trigger] s[i].buff_type,
        ) && as_map(s)[s[i].buff_type] == s[i].duration by {
            if i < s.len() - 1 {
                assert(t[i] == s[i]);
                assert(s[i].buff_type != s[s.len() - 1].buff_type);
            }
        }
        assert forall|k: BuffType|
            (exists|i: int| 0 <= i < s.len() && #[trigger] s[i].buff_type == k) implies #[trigger]
            as_map(s).contains_key(k) by {
            let i = choose|i: int| 0 <= i < s.len() && #[trigger] s[i].buff_type == k;
            assert(as_map(s).contains_key(s[i].buff_type));
        }
    }
}

/// The sum, in tenths, of what each present kind adds to damage:
/// `MalwareInjected` takes two tenths off, `Overclock` adds eleven,
/// `FirewallFortified` adds nothing.
pub open spec fn damage_tenths(buffs: Map<BuffType, u32>) -> int {
    (if buffs.contains_key(BuffType::MalwareInjected) { -2int } else { 0 })
        + (if buffs.contains_key(BuffType::Overclock) { 11int } else { 0 })
}

/// The multiplier on resource gain, in tenths: ten to start with, two more
/// under `MalwareInjected`, nine more under `Overclock`.
pub open spec fn resource_tenths(buffs: Map<BuffType, u32>) -> int {
    10 + (if buffs.contains_key(BuffType::MalwareInjected) { 2int } else { 0 })
        + (if buffs.contains_key(BuffType::Overclock) { 9int } else { 0 })
}

/// `base * tenths / 10`, rounded up to the next integer.
pub open spec fn scale_by_tenths(base: int, tenths: int) -> int {
    (base * tenths + 9) / 10
}

/// `x` forced into the range of `i32`.
pub open spec fn saturate_i32(x: int) -> int {
    if x < i32::MIN {
        i32::MIN as int
    } else if x > i32::MAX {
        i32::MAX as int
    } else {
        x
    }
}

/// The buffs after one turn: each loses a turn, and those with none left
/// are gone.
pub open spec fn after_turn(buffs: Map<BuffType, u32>) -> Map<BuffType, u32> {
    Map::new(
        |k: BuffType| buffs.contains_key(k) && buffs[k] > 1,
        |k: BuffType| (buffs[k] - 1) as u32,
    )
}

/// The buffs after `n` turns.
pub open spec fn after_turns(buffs: Map<BuffType, u32>, n: nat) -> Map<BuffType, u32>
    decreases n,
{
    if n == 0 {
        buffs
    } else {
        after_turn(after_turns(buffs, (n - 1) as nat))
    }
}

/// A buff that is present never outlives its duration, and never leaves
/// early: after `n` turns a buff of duration `d` is gone exactly when
/// `n >= d`, and while it is there it has `d - n` turns left. A buff added
/// with duration zero stays until the first turn, so that one state (`d`
/// and `n` both zero) is left out.
pub proof fn lemma_buff_expires_on_time(buffs: Map<BuffType, u32>, kind: BuffType, n: nat)
    requires
        buffs.contains_key(kind),
        n > 0 || buffs[kind] > 0,
    ensures
        !after_turns(buffs, n).contains_key(kind) <==> n >= buffs[kind],
        after_turns(buffs, n).contains_key(kind) ==> after_turns(buffs, n)[kind] == buffs[kind]
            - n,
    decreases n,
{
    if n > 0 {
        let earlier = after_turns(buffs, (n - 1) as nat);
        assert(after_turns(buffs, n) == after_turn(earlier));
        if n - 1 > 0 || buffs[kind] > 0 {
            lemma_buff_expires_on_time(buffs, kind, (n - 1) as nat);
        } else {
            assert(earlier == buffs);
        }
    }
}

/// The buffs in force: at most one per kind.
pub struct BuffContainer {
    buffs: Vec<Buff>,
}

impl View for BuffContainer {
    type V = Map<BuffType, u32>;

    /// The turns left of each kind that is present.
    closed spec fn view(&self) -> Map<BuffType, u32> {
        as_map(self.buffs@)
    }
}

impl BuffContainer {
    #[verifier::type_invariant]
    spec fn unique_kinds(&self) -> bool {
        distinct_kinds(self.buffs@)
    }

    /// A container without buffs.
    pub fn new() -> (r: Self)
        ensures
            r@ == Map::<BuffType, u32>::empty(),
    {
        BuffContainer { buffs: Vec::new() }
    }

    fn entries(&self) -> (r: Vec<Buff>)
        ensures
            r@ == self.buffs@,
    {
        let mut r: Vec<Buff> = Vec::new();
        let mut i: usize = 0;
        while i < self.buffs.len()
            invariant
                i <= self.buffs@.len(),
                r@ == self.buffs@.take(i as int),
            decreases self.buffs@.len() - i,
        {
            r.push(self.buffs[i]);
            proof {
                assert(r@ =~= self.buffs@.take(i + 1));
            }
            i = i + 1;
        }
        proof {
            assert(r@ =~= self.buffs@);
        }
        r
    }

    fn position(&self, buff_type: BuffType) -> (r: Option<usize>)
        ensures
            match r {
                Some(i) => i < self.buffs@.len() && self.buffs@[i as int].buff_type == buff_type,
                None => forall|i: int|
                    0 <= i < self.buffs@.len() ==> self.buffs@[i].buff_type != buff_type,
            },
    {
        let mut i: usize = 0;
        while i < self.buffs.len()
            invariant
                i <= self.buffs@.len(),
                forall|j: int| 0 <= j < i ==> self.buffs@[j].buff_type != buff_type,
            decreases self.buffs@.len() - i,
        {
            if self.buffs[i].buff_type == buff_type {
                return Some(i);
            }
            i = i + 1;
        }
        None
    }

    /// Adds `duration` turns of `buff_type`: a buff of that kind that is
    /// already there is lengthened, otherwise a new one starts.
    pub fn add_buff(&mut self, buff_type: BuffType, duration: u32)
        requires
            old(self)@.contains_key(buff_type) ==> old(self)@[buff_type] + duration <= u32::MAX,
        ensures
            final(self)@ == old(self)@.insert(
                buff_type,
                if old(self)@.contains_key(buff_type) {
                    (old(self)@[buff_type] + duration) as u32
                } else {
                    duration
                },
            ),
    {
        proof {
            use_type_invariant(&*self);
            lemma_as_map(self.buffs@);
        }
        match self.position(buff_type) {
            Some(i) => {
                let mut buff = self.buffs[i];
                buff.add_duration(duration);
                let mut entries = self.entries();
                entries.set(i, buff);
                proof {
                    assert forall|a: int, b: int| 0 <= a < b < entries@.len() implies entries@[a].buff_type
                        != entries@[b].buff_type by {
                        assert(old(self).buffs@[a].buff_type != old(self).buffs@[b].buff_type);
                    }
                }
                self.buffs = entries;
                proof {
                    assert(distinct_kinds(self.buffs@));
                    lemma_as_map(self.buffs@);
                    assert(self.buffs@[i as int].buff_type == buff_type);
                    assert forall|k: BuffType| #[trigger]
                        as_map(old(self).buffs@).contains_key(k) implies as_map(
                        self.buffs@,
                    ).contains_key(k) by {
                        let j = choose|j: int|
                            0 <= j < old(self).buffs@.len() && #[trigger] old(self).buffs@[j].buff_type == k;
                        assert(self.buffs@[j].buff_type == k);
                    }
                    assert forall|k: BuffType| #[trigger]
                        as_map(self.buffs@).contains_key(k) implies as_map(
                        old(self).buffs@,
                    ).contains_key(k) by {
                        let j = choose|j: int|
                            0 <= j < self.buffs@.len() && #[trigger] self.buffs@[j].buff_type == k;
                        assert(old(self).buffs@[j].buff_type == k);
                    }
                    assert forall|k: BuffType|
                        as_map(self.buffs@).contains_key(k) && k != buff_type implies #[trigger]
                        as_map(self.buffs@)[k] == as_map(old(self).buffs@)[k] by {
                        let j = choose|j: int|
                            0 <= j < self.buffs@.len() && #[trigger] self.buffs@[j].buff_type == k;
                        assert(old(self).buffs@[j].buff_type == k);
                    }
                    assert(self@ =~= old(self)@.insert(
                        buff_type,
                        (old(self)@[buff_type] + duration) as u32,
                    ));
                }
            },
            None => {
                let mut entries = self.entries();
                entries.push(Buff::new(buff_type, duration));
                proof {
                    assert forall|a: int, b: int| 0 <= a < b < entries@.len() implies entries@[a].buff_type
                        != entries@[b].buff_type by {
                        if b < entries@.len() - 1 {
                            assert(old(self).buffs@[a].buff_type != old(self).buffs@[b].buff_type);
                        }
                    }
                }
                self.buffs = entries;
                proof {
                    assert(self.buffs@.drop_last() =~= old(self).buffs@);
                    assert(!old(self)@.contains_key(buff_type));
                }
            },
        }
    }

    /// The turns left of `buff_type`, if such a buff is in force.
    pub fn has_buff(&self, buff_type: BuffType) -> (r: Option<u32>)
        ensures
            r == if self@.contains_key(buff_type) {
                Some(self@[buff_type])
            } else {
                None::<u32>
            },
    {
        proof {
            use_type_invariant(self);
            lemma_as_map(self.buffs@);
        }
        match self.position(buff_type) {
            Some(i) => Some(self.buffs[i].duration),
            None => None,
        }
    }

    /// One game turn passes: every buff loses a turn, and those that have
    /// none left are removed.
    pub fn do_turn(&mut self)
        ensures
            final(self)@ == after_turn(old(self)@),
    {
        proof {
            use_type_invariant(&*self);
            lemma_as_map(self.buffs@);
        }
        let mut kept: Vec<Buff> = Vec::new();
        let mut i: usize = 0;
        while i < self.buffs.len()
            invariant
                i <= self.buffs@.len(),
                distinct_kinds(self.buffs@),
                distinct_kinds(kept@),
                forall|j: int| 0 <= j < kept@.len() ==> (#[trigger] kept@[j]).duration > 0,
                forall|j: int|
                    0 <= j < kept@.len() ==> aged_from(self.buffs@, i as int, #[trigger] kept@[j]),
                forall|p: int|
                    0 <= p < i && self.buffs@[p].duration > 1 ==> holds_kind(
                        kept@,
                        #[trigger] self.buffs@[p].buff_type,
                    ),
            decreases self.buffs@.len() - i,
        {
            let mut buff = self.buffs[i];
            buff.decrease_duration();
            if !buff.has_expired() {
                let ghost before = kept@;
                kept.push(buff);
                proof {
                    assert forall|a: int, b: int| 0 <= a < b < kept@.len() implies kept@[a].buff_type
                        != kept@[b].buff_type by {
                        if b == kept@.len() - 1 {
                            assert(aged_from(self.buffs@, i as int, before[a]));
                        } else {
                            assert(before[a].buff_type != before[b].buff_type);
                        }
                    }
                    assert forall|j: int| 0 <= j < kept@.len() implies aged_from(
                        self.buffs@,
                        i + 1,
                        #[trigger] kept@[j],
                    ) by {
                        if j == kept@.len() - 1 {
                            assert(self.buffs@[i as int].buff_type == kept@[j].buff_type);
                        } else {
                            assert(aged_from(self.buffs@, i as int, before[j]));
                        }
                    }
                    assert forall|p: int|
                        0 <= p < i + 1 && self.buffs@[p].duration > 1 implies holds_kind(
                        kept@,
                        #[trigger] self.buffs@[p].buff_type,
                    ) by {
                        if p == i {
                            assert(kept@[kept@.len() - 1].buff_type == self.buffs@[p].buff_type);
                        } else {
                            assert(holds_kind(before, self.buffs@[p].buff_type));
                            let j = choose|j: int|
                                0 <= j < before.len() && #[trigger] before[j].buff_type
                                    == self.buffs@[p].buff_type;
                            assert(kept@[j].buff_type == self.buffs@[p].buff_type);
                        }
                    }
                }
            } else {
                proof {
                    assert forall|j: int| 0 <= j < kept@.len() implies aged_from(
                        self.buffs@,
                        i + 1,
                        #[trigger] kept@[j],
                    ) by {
                        assert(aged_from(self.buffs@, i as int, kept@[j]));
                    }
                }
            }
            i = i + 1;
        }
        proof {
            lemma_as_map(kept@);
            let before = as_map(self.buffs@);
            let after = as_map(kept@);
            assert forall|k: BuffType| after.contains_key(k) implies before.contains_key(k)
                && before[k] == after[k] + 1 by {
                let j = choose|j: int| 0 <= j < kept@.len() && #[trigger] kept@[j].buff_type == k;
                assert(aged_from(self.buffs@, i as int, kept@[j]));
                let p = choose|p: int|
                    0 <= p < i && #[trigger] self.buffs@[p].buff_type == kept@[j].buff_type
                        && self.buffs@[p].duration == kept@[j].duration + 1;
                assert(before.contains_key(self.buffs@[p].buff_type));
            }
            assert forall|k: BuffType| before.contains_key(k) && before[k] > 1 implies after.contains_key(
                k,
            ) by {
                let p = choose|p: int|
                    0 <= p < self.buffs@.len() && #[trigger] self.buffs@[p].buff_type == k;
                assert(before[self.buffs@[p].buff_type] == self.buffs@[p].duration);
                assert(holds_kind(kept@, self.buffs@[p].buff_type));
                let j = choose|j: int|
                    0 <= j < kept@.len() && #[trigger] kept@[j].buff_type
                        == self.buffs@[p].buff_type;
                assert(after.contains_key(kept@[j].buff_type));
            }
            assert(after =~= after_turn(before));
        }
        self.buffs = kept;
    }

    /// `base * tenths / 10` rounded up.
    fn scaled(base: i64, tenths: i64) -> (r: i64)
        requires
            -2 <= tenths <= 21,
            -0x100_0000_0000 <= base <= 0x100_0000_0000,
        ensures
            r == scale_by_tenths(base as int, tenths as int),
    {
        assert(-21 * 0x100_0000_0000 <= base * tenths <= 21 * 0x100_0000_0000)
            by (nonlinear_arith)
            requires
                -0x100_0000_0000 <= base <= 0x100_0000_0000,
                -2 <= tenths <= 21,
        ;
        let product: i64 = base * tenths;
        if product >= 0 {
            (product + 9) / 10
        } else {
            -((-product) / 10)
        }
    }

    /// `x`, kept within `i32`.
    fn saturated(x: i64) -> (r: i32)
        ensures
            r == saturate_i32(x as int),
    {
        if x < i32::MIN as i64 {
            i32::MIN
        } else if x > i32::MAX as i64 {
            i32::MAX
        } else {
            x as i32
        }
    }

    fn damage_factor(&self) -> (r: i64)
        ensures
            r == damage_tenths(self@),
    {
        let mut tenths: i64 = 0;
        if self.has_buff(BuffType::MalwareInjected).is_some() {
            tenths = tenths - 2;
        }
        if self.has_buff(BuffType::Overclock).is_some() {
            tenths = tenths + 11;
        }
        tenths
    }

    /// The bonus damage that the buffs in force add to a hit of `base_dmg`:
    /// `base_dmg` times the sum of the kinds' contributions, rounded up.
    /// Without buffs it is zero. A bonus beyond the range of `i32` is cut
    /// to it.
    pub fn get_buff_dmg(&self, base_dmg: i32) -> (r: i32)
        ensures
            r == saturate_i32(scale_by_tenths(base_dmg as int, damage_tenths(self@))),
    {
        Self::saturated(Self::scaled(base_dmg as i64, self.damage_factor()))
    }

    /// `get_buff_dmg` for hits beyond the range of `i32`, uncut.
    pub(crate) fn wide_buff_dmg(&self, base_dmg: i64) -> (r: i64)
        requires
            -0x100_0000_0000 <= base_dmg <= 0x100_0000_0000,
        ensures
            r == scale_by_tenths(base_dmg as int, damage_tenths(self@)),
    {
        Self::scaled(base_dmg, self.damage_factor())
    }

    /// A resource gain of `base_ram` under the buffs in force: `base_ram`
    /// times one plus the kinds' contributions, rounded up. Without buffs
    /// it is `base_ram`. A gain beyond the range of `i32` is cut to it.
    pub fn get_buff_ram(&self, base_ram: i32) -> (r: i32)
        ensures
            r == saturate_i32(scale_by_tenths(base_ram as int, resource_tenths(self@))),
    {
        let mut tenths: i64 = 10;
        if self.has_buff(BuffType::MalwareInjected).is_some() {
            tenths = tenths + 2;
        }
        if self.has_buff(BuffType::Overclock).is_some() {
            tenths = tenths + 9;
        }
        Self::saturated(Self::scaled(base_ram as i64, tenths))
    }

    /// Removes every buff.
    pub fn clear(&mut self)
        ensures
            final(self)@ == Map::<BuffType, u32>::empty(),
    {
        self.buffs = Vec::new();
    }
}

} // verus!
