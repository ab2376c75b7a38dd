//! The fifteen colour roles and the extended palette that assigns a pair to
//! each of them.

use crate::color::{ColorPair, ColorValue};
use vstd::prelude::*;

verus! {

/// What a colour is used for.
#[derive(Clone, Copy, Debug, PartialEq, Eq, Structural)]
pub enum Usage {
    Primary,
    Secondary,
    Background,
    Success,
    Danger,
}

/// The intensity tier within a usage.
#[derive(Clone, Copy, Debug, PartialEq, Eq, Structural)]
pub enum Variant {
    Base,
    Weak,
    Strong,
}

/// One slot of a palette: a usage at a given intensity.
#[derive(Clone, Copy, Debug, PartialEq, Eq, Structural)]
pub struct Role {
    pub usage: Usage,
    pub variant: Variant,
}

/// The three pairs of one usage.
#[derive(Clone, Copy, Debug, PartialEq, Eq, Structural)]
pub struct Shades {
    pub base: ColorPair,
    pub weak: ColorPair,
    pub strong: ColorPair,
}

/// A pair for every role. Palettes are plain values: an update yields a new
/// palette and leaves the one it started from as it was.
#[derive(Clone, Copy, Debug, PartialEq, Eq, Structural)]
pub struct ExtendedPalette {
    pub background: Shades,
    pub primary: Shades,
    pub secondary: Shades,
    pub success: Shades,
    pub danger: Shades,
}

impl Role {
    /// The position of the role in the fixed enumeration: usages in the
    /// order primary, secondary, background, success, danger, and within
    /// each usage base, weak, strong.
    pub open spec fn index(self) -> int {
        3 * (match self.usage {
            Usage::Primary => 0int,
            Usage::Secondary => 1,
            Usage::Background => 2,
            Usage::Success => 3,
            Usage::Danger => 4,
        }) + (match self.variant {
            Variant::Base => 0int,
            Variant::Weak => 1,
            Variant::Strong => 2,
        })
    }

    /// The role at a position of the enumeration.
    pub open spec fn at(i: int) -> Role
        recommends
            0 <= i < 15,
    {
        Role {
            usage: if i / 3 == 0 {
                Usage::Primary
            } else if i / 3 == 1 {
                Usage::Secondary
            } else if i / 3 == 2 {
                Usage::Background
            } else if i / 3 == 3 {
                Usage::Success
            } else {
                Usage::Danger
            },
            variant: if i % 3 == 0 {
                Variant::Base
            } else if i % 3 == 1 {
                Variant::Weak
            } else {
                Variant::Strong
            },
        }
    }

    /// The role of a usage at an intensity.
    pub fn new(usage: Usage, variant: Variant) -> (role: Role)
        ensures
            role == (Role { usage, variant }),
    {
        Role { usage, variant }
    }

    /// All fifteen roles, each exactly once, in enumeration order.
    pub fn all() -> (roles: Vec<Role>)
        ensures
            roles@.len() == 15,
            forall|i: int| 0 <= i < 15 ==> roles@[i] == Role::at(i),
            forall|i: int| 0 <= i < 15 ==> (#[trigger] roles@[i]).index() == i,
            forall|role: Role| roles@[role.index()] == role,
    {
        let usages: [Usage; 5] = [
            Usage::Primary,
            Usage::Secondary,
            Usage::Background,
            Usage::Success,
            Usage::Danger,
        ];
        let variants: [Variant; 3] = [Variant::Base, Variant::Weak, Variant::Strong];
        let mut roles: Vec<Role> = Vec::new();
        let mut u: usize = 0;
        while u < 5
            invariant
                u <= 5,
                roles@.len() == 3 * u,
                usages@ == seq![
                    Usage::Primary,
                    Usage::Secondary,
                    Usage::Background,
                    Usage::Success,
                    Usage::Danger,
                ],
                variants@ == seq![Variant::Base, Variant::Weak, Variant::Strong],
                forall|i: int| 0 <= i < roles@.len() ==> roles@[i] == Role::at(i),
            decreases 5 - u,
        {
            let mut v: usize = 0;
            while v < 3
                invariant
                    u < 5,
                    v <= 3,
                    roles@.len() == 3 * u + v,
                    usages@ == seq![
                        Usage::Primary,
                        Usage::Secondary,
                        Usage::Background,
                        Usage::Success,
                        Usage::Danger,
                    ],
                    variants@ == seq![Variant::Base, Variant::Weak, Variant::Strong],
                    forall|i: int| 0 <= i < roles@.len() ==> roles@[i] == Role::at(i),
                decreases 3 - v,
            {
                roles.push(Role { usage: usages[u], variant: variants[v] });
                v += 1;
            }
            u += 1;
        }
        proof {
            assert forall|i: int| 0 <= i < 15 implies (#[trigger] roles@[i]).index() == i by {
                assert(roles@[i] == Role::at(i));
                assert(0 <= i / 3 < 5 && 0 <= i % 3 < 3 && i == 3 * (i / 3) + i % 3);
            }
            assert forall|role: Role| roles@[role.index()] == role by {
                assert(Role::at(role.index()) == role);
            }
        }
        roles
    }
}

impl Shades {
    /// The pair at an intensity.
    pub open spec fn pair(self, variant: Variant) -> ColorPair {
        match variant {
            Variant::Base => self.base,
            Variant::Weak => self.weak,
            Variant::Strong => self.strong,
        }
    }
}

impl View for ExtendedPalette {
    type V = Map<Role, ColorPair>;

    /// The palette as a total mapping from roles to pairs.
    open spec fn view(&self) -> Map<Role, ColorPair> {
        Map::new(|role: Role| true, |role: Role| self.pair(role))
    }
}

impl ExtendedPalette {
    /// The three pairs of a usage.
    pub open spec fn shades(self, usage: Usage) -> Shades {
        match usage {
            Usage::Primary => self.primary,
            Usage::Secondary => self.secondary,
            Usage::Background => self.background,
            Usage::Success => self.success,
            Usage::Danger => self.danger,
        }
    }

    /// The pair that the palette assigns to a role.
    pub open spec fn pair(self, role: Role) -> ColorPair {
        self.shades(role.usage).pair(role.variant)
    }

    /// The palette that agrees with `self` everywhere but at `role`, where
    /// it holds `pair`.
    pub open spec fn overlaid(self, role: Role, pair: ColorPair) -> ExtendedPalette {
        ExtendedPalette::from_pairs(self@.insert(role, pair))
    }

    /// The palette that assigns to each role the pair that `pairs` holds
    /// for it.
    pub open spec fn from_pairs(pairs: Map<Role, ColorPair>) -> ExtendedPalette {
        ExtendedPalette {
            primary: Self::shades_from(pairs, Usage::Primary),
            secondary: Self::shades_from(pairs, Usage::Secondary),
            background: Self::shades_from(pairs, Usage::Background),
            success: Self::shades_from(pairs, Usage::Success),
            danger: Self::shades_from(pairs, Usage::Danger),
        }
    }

    /// The three pairs that `pairs` holds for a usage.
    pub open spec fn shades_from(pairs: Map<Role, ColorPair>, usage: Usage) -> Shades {
        Shades {
            base: pairs[Role { usage, variant: Variant::Base }],
            weak: pairs[Role { usage, variant: Variant::Weak }],
            strong: pairs[Role { usage, variant: Variant::Strong }],
        }
    }

    /// A palette is determined by the pairs of its fifteen roles.
    pub proof fn lemma_view_determines(self, other: ExtendedPalette)
        requires
            self@ == other@,
        ensures
            self == other,
    {
        assert forall|role: Role| self.pair(role) == other.pair(role) by {
            assert(self@.dom().contains(role) && other@.dom().contains(role));
            assert(self@[role] == self.pair(role));
            assert(other@[role] == other.pair(role));
        }
        Self::lemma_pairs_determine(self, other);
    }

    proof fn lemma_pairs_determine(p: ExtendedPalette, q: ExtendedPalette)
        requires
            forall|role: Role| p.pair(role) == q.pair(role),
        ensures
            p == q,
    {
        assert forall|usage: Usage| p.shades(usage) == q.shades(usage) by {
            assert(p.pair(Role { usage, variant: Variant::Base }) == q.pair(
                Role { usage, variant: Variant::Base },
            ));
            assert(p.pair(Role { usage, variant: Variant::Weak }) == q.pair(
                Role { usage, variant: Variant::Weak },
            ));
            assert(p.pair(Role { usage, variant: Variant::Strong }) == q.pair(
                Role { usage, variant: Variant::Strong },
            ));
        }
        assert(p.shades(Usage::Primary) == q.shades(Usage::Primary));
        assert(p.shades(Usage::Secondary) == q.shades(Usage::Secondary));
        assert(p.shades(Usage::Background) == q.shades(Usage::Background));
        assert(p.shades(Usage::Success) == q.shades(Usage::Success));
        assert(p.shades(Usage::Danger) == q.shades(Usage::Danger));
    }

    /// Reading back what `from_pairs` was given.
    pub proof fn lemma_from_pairs(pairs: Map<Role, ColorPair>)
        requires
            forall|role: Role| pairs.dom().contains(role),
        ensures
            ExtendedPalette::from_pairs(pairs)@ == pairs,
            forall|role: Role| ExtendedPalette::from_pairs(pairs).pair(role) == pairs[role],
    {
        let p = ExtendedPalette::from_pairs(pairs);
        assert forall|role: Role| p.pair(role) == pairs[role] by {
            let Role { usage, variant } = role;
            assert(p.shades(usage) == Self::shades_from(pairs, usage));
        }
        assert(p@ =~= pairs);
    }

    /// The pair that the palette assigns to a role.
    pub fn get_pair(&self, usage: Usage, variant: Variant) -> (pair: ColorPair)
        ensures
            pair == self.pair(Role { usage, variant }),
            pair == self@[Role { usage, variant }],
    {
        let shades = match usage {
            Usage::Primary => self.primary,
            Usage::Secondary => self.secondary,
            Usage::Background => self.background,
            Usage::Danger => self.danger,
            Usage::Success => self.success,
        };
        match variant {
            Variant::Base => shades.base,
            Variant::Weak => shades.weak,
            Variant::Strong => shades.strong,
        }
    }

    /// The colour to render for a role: the background half of its pair.
    pub fn display_color(&self, role: Role) -> (color: ColorValue)
        ensures
            color == self.pair(role).background,
    {
        self.get_pair(role.usage, role.variant).background
    }
}

/// The three pairs `shades` with the one at `variant` replaced by `pair`.
fn updated_shades(shades: Shades, pair: ColorPair, variant: Variant) -> (out: Shades)
    ensures
        out.pair(variant) == pair,
        forall|other: Variant| other != variant ==> out.pair(other) == shades.pair(other),
{
    match variant {
        Variant::Base => Shades { base: pair, ..shades },
        Variant::Weak => Shades { weak: pair, ..shades },
        Variant::Strong => Shades { strong: pair, ..shades },
    }
}

/// Replaces the pair of one role. The result holds `pair` at `role` and, at
/// each of the fourteen other roles, what `base` holds there; `base` itself
/// is not touched.
pub fn overlay(base: ExtendedPalette, role: Role, pair: ColorPair) -> (out: ExtendedPalette)
    ensures
        out@ == base@.insert(role, pair),
        out == base.overlaid(role, pair),
        out.pair(role) == pair,
        forall|other: Role| other != role ==> out.pair(other) == base.pair(other),
{
    let out = match role.usage {
        Usage::Primary => ExtendedPalette {
            primary: updated_shades(base.primary, pair, role.variant),
            ..base
        },
        Usage::Secondary => ExtendedPalette {
            secondary: updated_shades(base.secondary, pair, role.variant),
            ..base
        },
        Usage::Background => ExtendedPalette {
            background: updated_shades(base.background, pair, role.variant),
            ..base
        },
        Usage::Success => ExtendedPalette {
            success: updated_shades(base.success, pair, role.variant),
            ..base
        },
        Usage::Danger => ExtendedPalette {
            danger: updated_shades(base.danger, pair, role.variant),
            ..base
        },
    };
    proof {
        assert forall|other: Role| other != role implies out.pair(other) == base.pair(other) by {
            if other.usage == role.usage {
                assert(other.variant != role.variant);
            }
        }
        assert(out@ =~= base@.insert(role, pair));
        ExtendedPalette::lemma_from_pairs(base@.insert(role, pair));
        out.lemma_view_determines(base.overlaid(role, pair));
    }
    out
}

/// Overlaying the same pair at the same role a second time changes nothing.
pub proof fn lemma_overlay_idempotent(p: ExtendedPalette, role: Role, pair: ColorPair)
    ensures
        p.overlaid(role, pair).overlaid(role, pair) == p.overlaid(role, pair),
{
    let once = p.overlaid(role, pair);
    ExtendedPalette::lemma_from_pairs(p@.insert(role, pair));
    assert(once@.insert(role, pair) =~= once@);
}

/// An overlay holds the new pair at its role and leaves the pair of every
/// other role exactly as it was.
pub proof fn lemma_overlay_touches_one_role(p: ExtendedPalette, role: Role, pair: ColorPair)
    ensures
        p.overlaid(role, pair).pair(role) == pair,
        forall|other: Role|
            other != role ==> #[trigger] p.overlaid(role, pair).pair(other) == p.pair(other),
{
    ExtendedPalette::lemma_from_pairs(p@.insert(role, pair));
}

} // verus!
