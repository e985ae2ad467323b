//! Verified core of the TorShield bridge-selection toolkit.
use vstd::prelude::*;

pub mod text;
pub mod ip_guard;
pub mod netaddr;
pub mod failsafe_bridges;
pub mod ordering;
pub mod patterns;
pub mod endpoint_validator;
pub mod failure_attribution;
pub mod iran_smart_anti_filter_v2;
pub mod evidence_fusion;
pub mod iran_smart_anti_filter;
pub mod iran_quantum_dpi_shield_v2;

pub mod iran_advanced_dpi_evasion;
pub mod iran_detector;
pub mod iran_dpi_shaper;
pub mod feature_flags;
pub mod formatter;
pub mod history;
pub mod history_utils;
pub mod iran_bridge_prioritizer;
pub mod iran_smart_rotation;
pub mod ja3_intelligence;
pub mod iran_nin_bypass;
pub mod evidence_stamp;
pub mod timefmt;
pub mod iran_anti_siam;

verus! {
}
