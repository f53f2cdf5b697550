//! The orbitals to choose from.

use crate::floats;
use crate::floats::{INV_SQRT2_BITS, ONE_BITS, ZERO_BITS};
use vstd::prelude::*;

verus! {

/// How many terms of a superposition the shader has room for.
pub const MAX_COMPONENTS: usize = 8;

/// The preset that the program starts with.
pub const START_PRESET: usize = 5;

/// The density that is drawn brightest before a preset is chosen: 0.05
pub const START_DENSITY_BITS: u32 = 0x3D4C_CCCD;

/// How many energy levels the presets use.
pub const LEVELS: usize = 4;

/// One eigenstate in a superposition: its quantum numbers, and by their bit patterns the
/// charge of the nucleus, the amplitude and the energy.
#[derive(Clone, Copy, PartialEq, Eq, Debug, Structural)]
pub struct OrbitalComponent {
    pub n: i32,
    pub l: i32,
    pub m: i32,
    pub z: u32,
    pub c_real: u32,
    pub c_imag: u32,
    pub energy: u32,
}

/// A state to show, and the density that is drawn brightest, as the bit pattern of a float.
pub struct Preset {
    pub name: &'static str,
    pub components: Vec<OrbitalComponent>,
    pub max_density: u32,
}

/// The mathematical content of a preset.
#[verifier::ext_equal]
pub struct PresetModel {
    pub name: Seq<char>,
    pub components: Seq<OrbitalComponent>,
    pub max_density: u32,
}

impl View for Preset {
    type V = PresetModel;

    open spec fn view(&self) -> PresetModel {
        PresetModel {
            name: self.name@,
            components: self.components@,
            max_density: self.max_density,
        }
    }
}

/// A term of hydrogen with a real amplitude.
pub open spec fn term(q: (i32, i32, i32), amplitude: u32, energy: u32) -> OrbitalComponent {
    OrbitalComponent {
        n: q.0,
        l: q.1,
        m: q.2,
        z: ONE_BITS,
        c_real: amplitude,
        c_imag: ZERO_BITS,
        energy,
    }
}

/// A state of one term.
pub open spec fn pure_state(q: (i32, i32, i32), energy: u32) -> Seq<OrbitalComponent> {
    seq![term(q, ONE_BITS, energy)]
}

/// A state of two terms with the same weight.
pub open spec fn mixed_state(
    a: (i32, i32, i32),
    b: (i32, i32, i32),
    energy_a: u32,
    energy_b: u32,
) -> Seq<OrbitalComponent> {
    seq![term(a, INV_SQRT2_BITS, energy_a), term(b, INV_SQRT2_BITS, energy_b)]
}

/// The presets in the order of their keys; `levels` holds the energies of hydrogen, lowest
/// first.
pub open spec fn preset_models(levels: Seq<u32>) -> Seq<PresetModel> {
    seq![
        // 0.30
        PresetModel {
            name: "1s ground state"@,
            components: pure_state((1, 0, 0), levels[0]),
            max_density: 0x3E99_999A,
        },
        // 0.04
        PresetModel {
            name: "2s (radial node)"@,
            components: pure_state((2, 0, 0), levels[1]),
            max_density: 0x3D23_D70A,
        },
        // 0.015
        PresetModel {
            name: "2p_z"@,
            components: pure_state((2, 1, 0), levels[1]),
            max_density: 0x3C75_C28F,
        },
        // 0.004
        PresetModel {
            name: "3d_z^2"@,
            components: pure_state((3, 2, 0), levels[2]),
            max_density: 0x3B83_126F,
        },
        // 0.004
        PresetModel {
            name: "3d_xy"@,
            components: pure_state((3, 2, (-2) as i32), levels[2]),
            max_density: 0x3B83_126F,
        },
        // 0.10
        PresetModel {
            name: "Oscillating 1s+2p_z"@,
            components: mixed_state((1, 0, 0), (2, 1, 0), levels[0], levels[1]),
            max_density: 0x3DCC_CCCD,
        },
        // 0.15
        PresetModel {
            name: "Breathing 1s+2s"@,
            components: mixed_state((1, 0, 0), (2, 0, 0), levels[0], levels[1]),
            max_density: 0x3E19_999A,
        },
        // 0.010
        PresetModel {
            name: "Rabi 2p_z+3d_z^2"@,
            components: mixed_state((2, 1, 0), (3, 2, 0), levels[1], levels[2]),
            max_density: 0x3C23_D70A,
        },
        // 0.0010
        PresetModel {
            name: "4f (n=4,l=3,m=0)"@,
            components: pure_state((4, 3, 0), levels[3]),
            max_density: 0x3A83_126F,
        },
    ]
}

/// Whether there is an eigenstate with these quantum numbers.
pub open spec fn is_eigenstate(c: OrbitalComponent) -> bool {
    1 <= c.n && 0 <= c.l < c.n && -c.l <= c.m <= c.l
}

/// Whether the terms are those of a normalised state: one of amplitude one, or two
/// different ones whose amplitudes are one over the square root of two.
pub open spec fn is_normalised(cs: Seq<OrbitalComponent>) -> bool {
    ||| cs.len() == 1 && cs[0].c_real == ONE_BITS && cs[0].c_imag == ZERO_BITS
    ||| {
        &&& cs.len() == 2
        &&& cs[0].c_real == cs[1].c_real == INV_SQRT2_BITS
        &&& cs[0].c_imag == cs[1].c_imag == ZERO_BITS
        &&& (cs[0].n, cs[0].l, cs[0].m) != (cs[1].n, cs[1].l, cs[1].m)
    }
}

/// A state of one term, whose energy is given by its bit pattern.
pub fn pure(n: i32, l: i32, m: i32, energy: u32) -> (cs: Vec<OrbitalComponent>)
    ensures
        cs@ == pure_state((n, l, m), energy),
{
    let cs = vec![
        OrbitalComponent { n, l, m, z: ONE_BITS, c_real: ONE_BITS, c_imag: ZERO_BITS, energy },
    ];
    assert(cs@ =~= pure_state((n, l, m), energy));
    cs
}

/// A state of two terms with the same weight, whose energies are given by their bit
/// patterns.
pub fn superposition(
    a: (i32, i32, i32),
    b: (i32, i32, i32),
    energy_a: u32,
    energy_b: u32,
) -> (cs: Vec<OrbitalComponent>)
    ensures
        cs@ == mixed_state(a, b, energy_a, energy_b),
{
    let cs = vec![
        OrbitalComponent {
            n: a.0,
            l: a.1,
            m: a.2,
            z: ONE_BITS,
            c_real: INV_SQRT2_BITS,
            c_imag: ZERO_BITS,
            energy: energy_a,
        },
        OrbitalComponent {
            n: b.0,
            l: b.1,
            m: b.2,
            z: ONE_BITS,
            c_real: INV_SQRT2_BITS,
            c_imag: ZERO_BITS,
            energy: energy_b,
        },
    ];
    assert(cs@ =~= mixed_state(a, b, energy_a, energy_b));
    cs
}

/// The presets in the order of their keys; `levels` holds the bit patterns of the energies
/// of hydrogen, lowest first.
pub fn presets(levels: [u32; 4]) -> (all: Vec<Preset>)
    ensures
        all@.len() == preset_models(levels@).len(),
        forall|i: int|
            0 <= i < all@.len() ==> (#[trigger] all@[i])@ == preset_models(levels@)[i],
{
    let all = vec![
        Preset {
            name: "1s ground state",
            components: pure(1, 0, 0, levels[0]),
            max_density: 0x3E99_999A,
        },
        Preset {
            name: "2s (radial node)",
            components: pure(2, 0, 0, levels[1]),
            max_density: 0x3D23_D70A,
        },
        Preset {
            name: "2p_z",
            components: pure(2, 1, 0, levels[1]),
            max_density: 0x3C75_C28F,
        },
        Preset {
            name: "3d_z^2",
            components: pure(3, 2, 0, levels[2]),
            max_density: 0x3B83_126F,
        },
        Preset {
            name: "3d_xy",
            components: pure(3, 2, -2, levels[2]),
            max_density: 0x3B83_126F,
        },
        Preset {
            name: "Oscillating 1s+2p_z",
            components: superposition((1, 0, 0), (2, 1, 0), levels[0], levels[1]),
            max_density: 0x3DCC_CCCD,
        },
        Preset {
            name: "Breathing 1s+2s",
            components: superposition((1, 0, 0), (2, 0, 0), levels[0], levels[1]),
            max_density: 0x3E19_999A,
        },
        Preset {
            name: "Rabi 2p_z+3d_z^2",
            components: superposition((2, 1, 0), (3, 2, 0), levels[1], levels[2]),
            max_density: 0x3C23_D70A,
        },
        Preset {
            name: "4f (n=4,l=3,m=0)",
            components: pure(4, 3, 0, levels[3]),
            max_density: 0x3A83_126F,
        },
    ];
    assert(all@.len() == 9);
    assert forall|i: int| 0 <= i < all@.len() implies (#[trigger] all@[i])@ == preset_models(
        levels@,
    )[i] by {
        assert(i == 0 || i == 1 || i == 2 || i == 3 || i == 4 || i == 5 || i == 6 || i == 7 || i
            == 8);
    }
    all
}

/// Every preset is a state that hydrogen can be in: its terms are eigenstates, each with
/// the energy of its level, it is normalised, the shader has room for it, and its
/// brightest density is above zero.
pub proof fn law_presets_are_states(levels: Seq<u32>)
    requires
        levels.len() == LEVELS,
    ensures
        preset_models(levels).len() == 9,
        START_PRESET < preset_models(levels).len(),
        forall|i: int|
            0 <= i < preset_models(levels).len() ==> {
                let p = #[trigger] preset_models(levels)[i];
                &&& 0 < p.components.len() <= MAX_COMPONENTS
                &&& is_normalised(p.components)
                &&& floats::is_positive(p.max_density)
            },
        forall|i: int, k: int|
            0 <= i < preset_models(levels).len() && 0 <= k < preset_models(
                levels,
            )[i].components.len() ==> {
                let c = #[trigger] preset_models(levels)[i].components[k];
                &&& is_eigenstate(c)
                &&& c.z == ONE_BITS
                &&& c.n <= LEVELS
                &&& c.energy == levels[c.n - 1]
            },
{
    let all = preset_models(levels);
    assert forall|i: int| 0 <= i < all.len() implies is_normalised((#[trigger] all[i]).components)
        && 0 < all[i].components.len() <= 2 && floats::is_positive(all[i].max_density) && forall|
        k: int,
    |
        0 <= k < all[i].components.len() ==> {
            let c = #[trigger] all[i].components[k];
            is_eigenstate(c) && c.z == ONE_BITS && c.n <= LEVELS && c.energy == levels[c.n - 1]
        } by {
        assert(i == 0 || i == 1 || i == 2 || i == 3 || i == 4 || i == 5 || i == 6 || i == 7 || i
            == 8);
    }
}

/// The quantum numbers of a term.
pub open spec fn numbers_of(c: OrbitalComponent) -> (int, int, int) {
    (c.n as int, c.l as int, c.m as int)
}

/// The quantum numbers of a state, term by term.
pub open spec fn all_numbers(cs: Seq<OrbitalComponent>) -> Seq<(int, int, int)> {
    Seq::new(cs.len(), |k: int| numbers_of(cs[k]))
}

/// The letter that spectroscopy gives to an angular momentum.
pub open spec fn letter_of(l: int) -> char {
    if l == 0 {
        's'
    } else if l == 1 {
        'p'
    } else if l == 2 {
        'd'
    } else {
        'f'
    }
}

/// Whether a name has an orbital at a place: a digit with one of the letters behind it.
pub open spec fn names_orbital(name: Seq<char>, at: int) -> bool {
    &&& 0 <= at < name.len() - 1
    &&& '1' <= name[at] <= '9'
    &&& name[at + 1] == 's' || name[at + 1] == 'p' || name[at + 1] == 'd' || name[at + 1] == 'f'
}

/// Whether what follows an orbital in a name is its axis.
pub open spec fn has_axis(name: Seq<char>, at: int, first: char) -> bool {
    at + 3 < name.len() && name[at + 2] == '_' && name[at + 3] == first
}

/// Whether a name has, at a place, the orbital of the given quantum numbers: the digit is
/// the shell, the letter the angular momentum, and the axis the orientation. An orbital
/// along z, or without an axis, does not turn about z; the one in the plane of x and y is
/// the sine of twice the angle.
pub open spec fn spells_orbital(name: Seq<char>, at: int, q: (int, int, int)) -> bool {
    &&& names_orbital(name, at)
    &&& name[at] as int == '0' as int + q.0
    &&& 0 <= q.1 <= 3
    &&& name[at + 1] == letter_of(q.1)
    &&& q.2 == if has_axis(name, at, 'x') {
        -2int
    } else {
        0int
    }
}

/// Every preset is made of the orbitals that its name says, of each of them and of no
/// other.
pub proof fn law_presets_are_what_their_names_say(levels: Seq<u32>, i: int)
    requires
        levels.len() == 4,
        0 <= i < preset_models(levels).len(),
    ensures
        forall|k: int|
            0 <= k < preset_models(levels)[i].components.len() ==> exists|at: int|
                spells_orbital(
                    preset_models(levels)[i].name,
                    at,
                    numbers_of(#[trigger] preset_models(levels)[i].components[k]),
                ),
        forall|at: int| #[trigger]
            names_orbital(preset_models(levels)[i].name, at) ==> exists|k: int|
                0 <= k < preset_models(levels)[i].components.len() && spells_orbital(
                    preset_models(levels)[i].name,
                    at,
                    numbers_of(#[trigger] preset_models(levels)[i].components[k]),
                ),
{
    reveal_strlit("1s ground state");
    reveal_strlit("2s (radial node)");
    reveal_strlit("2p_z");
    reveal_strlit("3d_z^2");
    reveal_strlit("3d_xy");
    reveal_strlit("Oscillating 1s+2p_z");
    reveal_strlit("Breathing 1s+2s");
    reveal_strlit("Rabi 2p_z+3d_z^2");
    reveal_strlit("4f (n=4,l=3,m=0)");
    let p = preset_models(levels)[i];
    let cs = p.components;
    let places: Seq<int> = if i == 5 {
        seq![12int, 15int]
    } else if i == 6 {
        seq![10int, 13int]
    } else if i == 7 {
        seq![5int, 10int]
    } else {
        seq![0int]
    };
    assert(i == 0 || i == 1 || i == 2 || i == 3 || i == 4 || i == 5 || i == 6 || i == 7 || i == 8);
    assert(places.len() == cs.len());
    assert(spells_orbital(p.name, places[0], numbers_of(cs[0])));
    assert(cs.len() == 2 ==> spells_orbital(p.name, places[1], numbers_of(cs[1])));
    assert forall|k: int| 0 <= k < cs.len() implies exists|at: int|
        spells_orbital(p.name, at, numbers_of(#[trigger] cs[k])) by {
        assert(spells_orbital(p.name, places[k], numbers_of(cs[k])));
    }
    assert forall|at: int| #[trigger] names_orbital(p.name, at) implies exists|k: int|
        0 <= k < cs.len() && spells_orbital(p.name, at, numbers_of(#[trigger] cs[k])) by {
        assert(at == places[0] || cs.len() == 2 && at == places[1]);
        if at == places[0] {
            assert(spells_orbital(p.name, at, numbers_of(cs[0])));
        } else {
            assert(spells_orbital(p.name, at, numbers_of(cs[1])));
        }
    }
}

/// The presets from the first key to the ninth: what each is called and which orbitals it
/// adds up.
pub proof fn law_presets_in_order(levels: Seq<u32>)
    requires
        levels.len() == 4,
    ensures
        ({
            let all = preset_models(levels);
            &&& all.len() == 9
            &&& all[0].name == "1s ground state"@
            &&& all_numbers(all[0].components) == seq![(1int, 0int, 0int)]
            &&& all[1].name == "2s (radial node)"@
            &&& all_numbers(all[1].components) == seq![(2int, 0int, 0int)]
            &&& all[2].name == "2p_z"@
            &&& all_numbers(all[2].components) == seq![(2int, 1int, 0int)]
            &&& all[3].name == "3d_z^2"@
            &&& all_numbers(all[3].components) == seq![(3int, 2int, 0int)]
            &&& all[4].name == "3d_xy"@
            &&& all_numbers(all[4].components) == seq![(3int, 2int, -2int)]
            &&& all[5].name == "Oscillating 1s+2p_z"@
            &&& all_numbers(all[5].components) == seq![(1int, 0int, 0int), (2int, 1int, 0int)]
            &&& all[6].name == "Breathing 1s+2s"@
            &&& all_numbers(all[6].components) == seq![(1int, 0int, 0int), (2int, 0int, 0int)]
            &&& all[7].name == "Rabi 2p_z+3d_z^2"@
            &&& all_numbers(all[7].components) == seq![(2int, 1int, 0int), (3int, 2int, 0int)]
            &&& all[8].name == "4f (n=4,l=3,m=0)"@
            &&& all_numbers(all[8].components) == seq![(4int, 3int, 0int)]
        }),
        START_PRESET == 5,
{
    let all = preset_models(levels);
    assert(all_numbers(all[0].components) =~= seq![(1int, 0int, 0int)]);
    assert(all_numbers(all[1].components) =~= seq![(2int, 0int, 0int)]);
    assert(all_numbers(all[2].components) =~= seq![(2int, 1int, 0int)]);
    assert(all_numbers(all[3].components) =~= seq![(3int, 2int, 0int)]);
    assert(all_numbers(all[4].components) =~= seq![(3int, 2int, -2int)]);
    assert(all_numbers(all[5].components) =~= seq![(1int, 0int, 0int), (2int, 1int, 0int)]);
    assert(all_numbers(all[6].components) =~= seq![(1int, 0int, 0int), (2int, 0int, 0int)]);
    assert(all_numbers(all[7].components) =~= seq![(2int, 1int, 0int), (3int, 2int, 0int)]);
    assert(all_numbers(all[8].components) =~= seq![(4int, 3int, 0int)]);
}

/// No two presets show the same: neither their names nor their quantum numbers are the
/// same.
pub proof fn law_presets_differ(levels: Seq<u32>, i: int, j: int)
    requires
        levels.len() == 4,
        0 <= i < j < preset_models(levels).len(),
    ensures
        all_numbers(preset_models(levels)[i].components) != all_numbers(
            preset_models(levels)[j].components,
        ),
        preset_models(levels)[i].name != preset_models(levels)[j].name,
{
    law_presets_in_order(levels);
    reveal_strlit("1s ground state");
    reveal_strlit("2s (radial node)");
    reveal_strlit("2p_z");
    reveal_strlit("3d_z^2");
    reveal_strlit("3d_xy");
    reveal_strlit("Oscillating 1s+2p_z");
    reveal_strlit("Breathing 1s+2s");
    reveal_strlit("Rabi 2p_z+3d_z^2");
    reveal_strlit("4f (n=4,l=3,m=0)");
    let a = preset_models(levels)[i];
    let b = preset_models(levels)[j];
    let p = all_numbers(a.components);
    let q = all_numbers(b.components);
    assert(i == 0 || i == 1 || i == 2 || i == 3 || i == 4 || i == 5 || i == 6 || i == 7);
    assert(j == 1 || j == 2 || j == 3 || j == 4 || j == 5 || j == 6 || j == 7 || j == 8);
    assert(p.len() != q.len() || p[0] != q[0] || p.len() == 2 && p[1] != q[1]);
    assert(a.name.len() != b.name.len() || a.name[0] != b.name[0] || a.name[1] != b.name[1]
        || a.name[3] != b.name[3]);
}

/// The brightest densities are the floats next to these decimal fractions: 0.30, 0.04,
/// 0.015, 0.004 twice, 0.10, 0.15, 0.010 and 0.0010; before a preset is chosen, 0.05.
pub proof fn law_preset_densities(levels: Seq<u32>)
    requires
        levels.len() == 4,
    ensures
        floats::is_next_to(preset_models(levels)[0].max_density, 30, 100, 25),
        floats::is_next_to(preset_models(levels)[1].max_density, 4, 100, 28),
        floats::is_next_to(preset_models(levels)[2].max_density, 15, 1000, 30),
        floats::is_next_to(preset_models(levels)[3].max_density, 4, 1000, 31),
        floats::is_next_to(preset_models(levels)[4].max_density, 4, 1000, 31),
        floats::is_next_to(preset_models(levels)[5].max_density, 10, 100, 27),
        floats::is_next_to(preset_models(levels)[6].max_density, 15, 100, 26),
        floats::is_next_to(preset_models(levels)[7].max_density, 10, 1000, 30),
        floats::is_next_to(preset_models(levels)[8].max_density, 10, 10000, 33),
        floats::is_next_to(START_DENSITY_BITS, 5, 100, 28),
{
    floats::lemma_powers();
}

/// A state of one term has the amplitude one, a state of two terms one over the square root
/// of two for each. The terms have the quantum numbers and the energies that are asked for,
/// in this order, real amplitudes, and the charge of one proton.
pub proof fn law_states_have_their_terms(
    a: (i32, i32, i32),
    b: (i32, i32, i32),
    energy_a: u32,
    energy_b: u32,
)
    ensures
        ({
            let one = pure_state(a, energy_a);
            let two = mixed_state(a, b, energy_a, energy_b);
            &&& one.len() == 1 && two.len() == 2
            &&& (one[0].n, one[0].l, one[0].m) == a && one[0].energy == energy_a
            &&& (two[0].n, two[0].l, two[0].m) == a && two[0].energy == energy_a
            &&& (two[1].n, two[1].l, two[1].m) == b && two[1].energy == energy_b
            &&& one[0].c_real == ONE_BITS && one[0].c_imag == ZERO_BITS && one[0].z == ONE_BITS
            &&& forall|k: int|
                0 <= k < 2 ==> (#[trigger] two[k]).c_real == INV_SQRT2_BITS && two[k].c_imag
                    == ZERO_BITS && two[k].z == ONE_BITS
        }),
{
}

} // verus!
