//! Feature configuration: which optional gate and lookup families a concrete
//! circuit uses. An absent configuration asks for a universally valid
//! expression in which every optional family is guarded by a conditional node.

use vstd::prelude::*;

verus! {

/// A toggle identifying one optional constraint family. A conditional
/// expression node carries the flag whose runtime value decides whether the
/// guarded subexpression contributes.
#[derive(Clone, Copy, PartialEq, Eq, Structural, Debug)]
pub enum FeatureFlag {
    ChaCha,
    RangeCheck,
    ForeignFieldAdd,
    ForeignFieldMul,
    Xor,
    LookupTables,
}

/// Which lookup pattern families are active.
#[derive(Clone, Copy, PartialEq, Eq, Structural, Debug)]
pub struct LookupPatterns {
    pub xor: bool,
    pub chacha_final: bool,
    pub lookup_gate: bool,
    pub range_check_gate: bool,
    pub foreign_field_mul_gate: bool,
}

impl LookupPatterns {
    /// The all-disabled value; it marks "no lookup configuration".
    pub open spec fn all_disabled() -> LookupPatterns {
        LookupPatterns {
            xor: false,
            chacha_final: false,
            lookup_gate: false,
            range_check_gate: false,
            foreign_field_mul_gate: false,
        }
    }

    pub open spec fn all_enabled() -> LookupPatterns {
        LookupPatterns {
            xor: true,
            chacha_final: true,
            lookup_gate: true,
            range_check_gate: true,
            foreign_field_mul_gate: true,
        }
    }

    /// The most lookups any enabled pattern places on one row: the xor,
    /// chacha-final, range-check and foreign-field-multiplication patterns
    /// make four lookups per row, the plain lookup gate three.
    pub open spec fn max_lookups_per_row_spec(self) -> int {
        if self.xor || self.chacha_final || self.range_check_gate || self.foreign_field_mul_gate {
            4
        } else if self.lookup_gate {
            3
        } else {
            0
        }
    }

    /// The most lookups any enabled pattern places on one row.
    pub fn max_lookups_per_row(&self) -> (r: usize)
        ensures
            r == self.max_lookups_per_row_spec(),
    {
        if self.xor || self.chacha_final || self.range_check_gate || self.foreign_field_mul_gate {
            4
        } else if self.lookup_gate {
            3
        } else {
            0
        }
    }
}

impl Default for LookupPatterns {
    /// The default is the all-disabled value.
    fn default() -> (r: Self)
        ensures
            r == LookupPatterns::all_disabled(),
    {
        LookupPatterns {
            xor: false,
            chacha_final: false,
            lookup_gate: false,
            range_check_gate: false,
            foreign_field_mul_gate: false,
        }
    }
}

/// The lookup side of a circuit's configuration.
#[derive(Clone, Copy, PartialEq, Eq, Structural, Debug)]
pub struct LookupFeatures {
    pub patterns: LookupPatterns,
    pub joint_lookup_used: bool,
    pub uses_runtime_tables: bool,
}

impl LookupFeatures {
    /// Every pattern and every lookup feature switched on: the upper bound
    /// used when no concrete configuration is given.
    pub open spec fn all_enabled_spec() -> LookupFeatures {
        LookupFeatures {
            patterns: LookupPatterns::all_enabled(),
            joint_lookup_used: true,
            uses_runtime_tables: true,
        }
    }

    pub fn all_enabled() -> (r: Self)
        ensures
            r == LookupFeatures::all_enabled_spec(),
    {
        LookupFeatures {
            patterns: LookupPatterns {
                xor: true,
                chacha_final: true,
                lookup_gate: true,
                range_check_gate: true,
                foreign_field_mul_gate: true,
            },
            joint_lookup_used: true,
            uses_runtime_tables: true,
        }
    }
}

/// The full feature configuration of a concrete circuit.
#[derive(Clone, Copy, PartialEq, Eq, Structural, Debug)]
pub struct FeatureFlags {
    pub chacha: bool,
    pub range_check: bool,
    pub foreign_field_add: bool,
    pub foreign_field_mul: bool,
    pub xor: bool,
    pub lookup_features: LookupFeatures,
}

impl FeatureFlags {
    /// Every optional family switched on: how an absent configuration is
    /// resolved wherever only an upper bound is needed.
    pub open spec fn all_enabled_spec() -> FeatureFlags {
        FeatureFlags {
            chacha: true,
            range_check: true,
            foreign_field_add: true,
            foreign_field_mul: true,
            xor: true,
            lookup_features: LookupFeatures::all_enabled_spec(),
        }
    }

    pub fn all_enabled() -> (r: Self)
        ensures
            r == FeatureFlags::all_enabled_spec(),
    {
        FeatureFlags {
            chacha: true,
            range_check: true,
            foreign_field_add: true,
            foreign_field_mul: true,
            xor: true,
            lookup_features: LookupFeatures::all_enabled(),
        }
    }
}

} // verus!
