//! Normalization of the map a transform step leaves behind: repair a
//! plugin-supplied map's provenance fields, or synthesize a high-resolution
//! identity map when a plugin changed code without reporting one.
use vstd::prelude::*;
use vstd::string::StrSliceExecFns;

use crate::types::{SourceMap, SourceMapData};

verus! {

/// The largest original text, in characters, for which a synthetic identity
/// map is rendered. string_wizard documents sources up to 4 GiB of UTF-8; a
/// character encodes to at most four bytes, so capping the character count at
/// 2^30 keeps every admissible text within that limit.
pub const SYNTHETIC_SOURCE_LIMIT: usize = 0x4000_0000;

/// The encoded position table of the high-resolution identity map that an
/// unedited magic string over `source` renders: one segment per character,
/// each mapping to itself. A function of the source text alone.
pub uninterp spec fn hires_identity_mappings(source: Seq<char>) -> Seq<char>;

/// The identity map synthesized for a step that changed code from
/// `original_code` without supplying a map: source name `id`, embedded
/// original content, high-resolution mappings.
pub open spec fn synthetic_hires_map(id: Seq<char>, original_code: Seq<char>) -> SourceMapData {
    SourceMapData {
        sources: seq![id],
        sources_content: seq![Some(original_code)],
        mappings: hires_identity_mappings(original_code),
    }
}

/// A plugin-supplied map omits its source name when it has none, an empty
/// first entry, or exactly one entry that disagrees with the module id.
pub open spec fn map_needs_source_fix(m: SourceMapData, id: Seq<char>) -> bool {
    ||| m.sources.len() == 0
    ||| m.sources[0].len() == 0
    ||| (m.sources.len() == 1 && m.sources[0] != id)
}

/// A plugin-supplied map omits its source content when it has none, or an
/// absent or empty first entry.
pub open spec fn map_needs_content_fix(m: SourceMapData) -> bool {
    ||| m.sources_content.len() == 0
    ||| match m.sources_content[0] {
        Some(c) => c.len() == 0,
        None => true,
    }
}

/// The repaired form of a plugin-supplied map: provenance fields that are
/// knowable from context are filled in, everything else is kept.
pub open spec fn repaired_map(
    m: SourceMapData,
    id: Seq<char>,
    original_code: Seq<char>,
) -> SourceMapData {
    SourceMapData {
        sources: if map_needs_source_fix(m, id) {
            seq![id]
        } else {
            m.sources
        },
        sources_content: if map_needs_content_fix(m) {
            seq![Some(original_code)]
        } else {
            m.sources_content
        },
        mappings: m.mappings,
    }
}

/// What one transform step appends to the module's map chain: the repaired
/// plugin map if one was supplied; a synthetic identity map if the plugin
/// changed code silently; nothing if position semantics did not change, or
/// if the original text is beyond the synthesizer's documented size limit
/// (losing provenance there is non-fatal, like every other map-integrity
/// gap).
pub open spec fn normalize_transform_sourcemap_spec(
    map: Option<SourceMapData>,
    id: Seq<char>,
    original_code: Seq<char>,
    code: Option<Seq<char>>,
) -> Option<SourceMapData> {
    match map {
        Some(m) => Some(repaired_map(m, id, original_code)),
        None => match code {
            Some(c) => if c == original_code {
                None
            } else if original_code.len() < SYNTHETIC_SOURCE_LIMIT as nat {
                Some(synthetic_hires_map(id, original_code))
            } else {
                None
            },
            None => None,
        },
    }
}

/// Relies on string_wizard's `MagicString::source_map`: rendering an unedited
/// magic string over `original_code` with `hires: True` and `source: id`
/// registers exactly one source named `id` with the original text as its
/// content, and encodes a per-character identity mapping that depends on the
/// source text alone. string_wizard supports sources below 4 GiB only (it
/// debug-asserts the bound and truncates offsets to 32 bits), so the bound on
/// the character count keeps every admitted text within what it supports.
#[verifier::external_body]
fn magic_string_identity_map(id: &String, original_code: &String) -> (r: SourceMap)
    requires
        original_code@.len() < SYNTHETIC_SOURCE_LIMIT as nat,
    ensures
        r.sources.deep_view() == seq![id@],
        r.sources_content.deep_view() == seq![Some(original_code@)],
        r.mappings@ == hires_identity_mappings(original_code@),
{
    let map = string_wizard::MagicString::new(original_code.as_str()).source_map(
        string_wizard::SourceMapOptions {
            hires: string_wizard::Hires::True,
            include_content: true,
            source: id.as_str().into(),
        },
    );
    let json = map.to_json();
    let sources_content = match json.sources_content {
        Some(v) => v,
        None => Vec::new(),
    };
    SourceMap { sources: json.sources, sources_content, mappings: json.mappings }
}

/// Decides what, if anything, one transform step appends to the module's map
/// chain, repairing or synthesizing provenance as needed.
pub fn normalize_transform_sourcemap(
    map: Option<SourceMap>,
    id: &String,
    original_code: &String,
    code: Option<&String>,
) -> (r: Option<SourceMap>)
    ensures
        r.deep_view() == normalize_transform_sourcemap_spec(
            map.deep_view(),
            id@,
            original_code@,
            code.deep_view(),
        ),
{
    match map {
        Some(mut m) => {
            let ghost m0 = m.deep_view();
            let needs_source_fix: bool = if m.sources.len() == 0 {
                true
            } else {
                m.sources[0].as_str().is_empty() || (m.sources.len() == 1 && !m.sources[
                    0
                ].eq(id))
            };
            proof {
                assert(needs_source_fix == map_needs_source_fix(m0, id@));
            }
            if needs_source_fix {
                let fixed_sources = vec![id.clone()];
                proof {
                    assert(fixed_sources.deep_view() =~= seq![id@]);
                }
                m.sources = fixed_sources;
            }
            let needs_content_fix: bool = if m.sources_content.len() == 0 {
                true
            } else {
                match &m.sources_content[0] {
                    Some(c) => c.as_str().is_empty(),
                    None => true,
                }
            };
            proof {
                assert(needs_content_fix == map_needs_content_fix(m0));
            }
            if needs_content_fix {
                let fixed_contents = vec![Some(original_code.clone())];
                proof {
                    assert(fixed_contents.deep_view() =~= seq![Some(original_code@)]);
                }
                m.sources_content = fixed_contents;
            }
            proof {
                assert(m.deep_view() == repaired_map(m0, id@, original_code@));
            }
            Some(m)
        },
        None => match code {
            Some(c) => {
                if c.eq(original_code) {
                    None
                } else if original_code.as_str().unicode_len() < SYNTHETIC_SOURCE_LIMIT {
                    let synthesized = magic_string_identity_map(id, original_code);
                    proof {
                        assert(synthesized.deep_view() == synthetic_hires_map(
                            id@,
                            original_code@,
                        ));
                    }
                    Some(synthesized)
                } else {
                    None
                }
            },
            None => None,
        },
    }
}

} // verus!
