//! Rendering of log lines through presets: formatters, styles, field
//! extraction, preset compilation, detection and the registry that chains
//! them.
pub mod builtin;
pub mod detect;
pub mod field;
pub mod format;
pub mod pattern;
pub mod preset;
pub mod segment;

use builtin::{builtin_presets, is_builtin_json, is_builtin_logfmt};
use detect::{detect_presets, detected_positions, opt_text};
use preset::{opt_segments, render_outcome, CompiledPreset};
use segment::StyledSegment;
use crate::text::str_eq;
use vstd::prelude::*;

verus! {

/// Whether a preset named `name` is among `presets`.
pub open spec fn has_named(presets: Seq<CompiledPreset>, name: Seq<char>) -> bool {
    exists|i: int| 0 <= i < presets.len() && #[trigger] presets[i].name@ == name
}

/// Position of the first preset named `name` from `i` on, or -1.
pub open spec fn first_named(presets: Seq<CompiledPreset>, name: Seq<char>, i: int) -> int
    decreases presets.len() - i,
{
    if i < 0 || i >= presets.len() {
        -1
    } else if presets[i].name@ == name {
        i
    } else {
        first_named(presets, name, i + 1)
    }
}

/// Whether the `i`-th renderer name names no preset, or one that renders
/// nothing for the line.
pub open spec fn renders_nothing(
    presets: Seq<CompiledPreset>,
    names: Seq<String>,
    i: int,
    line: Seq<char>,
    flags: Option<u32>,
) -> bool {
    let k = first_named(presets, names[i]@, 0);
    k < 0 || render_outcome(presets[k], line, flags, None)
}

/// What rendering `line` through the named presets may give: nothing
/// without names; else the first result that a named preset gives, each
/// earlier name naming no preset or one that renders nothing; nothing when
/// all of them render nothing.
pub open spec fn render_line_outcome(
    presets: Seq<CompiledPreset>,
    line: Seq<char>,
    names: Seq<String>,
    flags: Option<u32>,
    r: Option<Seq<(Seq<char>, segment::SegmentStyle)>>,
) -> bool {
    &&& names.len() == 0 ==> r is None
    &&& match r {
        Some(v) => exists|i: int|
            0 <= i < names.len() && first_named(presets, names[i]@, 0) >= 0 && render_outcome(
                presets[first_named(presets, names[i]@, 0)],
                line,
                flags,
                Some(v),
            ) && forall|j: int| 0 <= j < i ==> #[trigger] renders_nothing(presets, names, j, line, flags),
        None => forall|i: int| 0 <= i < names.len() ==> #[trigger] renders_nothing(presets, names, i, line, flags),
    }
}

/// Holds all compiled presets (user + builtins).
pub struct PresetRegistry {
    presets: Vec<CompiledPreset>,
}

proof fn lemma_first_named(presets: Seq<CompiledPreset>, name: Seq<char>, i: int)
    requires
        0 <= i <= presets.len(),
    ensures
        first_named(presets, name, i) == -1 || (i <= first_named(presets, name, i) < presets.len()
            && presets[first_named(presets, name, i)].name@ == name),
    decreases presets.len() - i,
{
    if i < presets.len() && presets[i].name@ != name {
        lemma_first_named(presets, name, i + 1);
    }
}

impl PresetRegistry {
    /// The presets in lookup order.
    pub closed spec fn presets(self) -> Seq<CompiledPreset> {
        self.presets@
    }

    /// Merges user presets with builtins. User presets come first (can shadow builtins by name).
    pub fn new(user_presets: Vec<CompiledPreset>) -> (r: Self)
        ensures
            ({
                let u = user_presets@;
                let j = !has_named(u, "json"@);
                let l = !has_named(u, "logfmt"@);
                &&& r.presets().len() == u.len() + (if j { 1int } else { 0 }) + (if l { 1int } else { 0 })
                &&& forall|i: int| 0 <= i < u.len() ==> r.presets()[i] == u[i]
                &&& j ==> is_builtin_json(r.presets()[u.len() as int])
                &&& l ==> is_builtin_logfmt(r.presets()[u.len() + (if j { 1int } else { 0 })])
            }),
    {
        let ghost u = user_presets@;
        let mut user_names: Vec<String> = Vec::new();
        let mut i: usize = 0;
        while i < user_presets.len()
            invariant
                u == user_presets@,
                i <= u.len(),
                user_names@.len() == i,
                forall|k: int| 0 <= k < i ==> #[trigger] user_names@[k]@ == u[k].name@,
            decreases u.len() - i,
        {
            user_names.push(user_presets[i].name.clone());
            i = i + 1;
        }
        let mut presets = user_presets;
        let builtins = builtin_presets();
        let ghost b = builtins@;
        for builtin in it: builtins.into_iter()
            invariant
                it.seq() == b,
                b.len() == 2,
                is_builtin_json(b[0]),
                is_builtin_logfmt(b[1]),
                user_names@.len() == u.len(),
                forall|k: int| 0 <= k < u.len() ==> #[trigger] user_names@[k]@ == u[k].name@,
                forall|k: int| 0 <= k < u.len() ==> presets@[k] == u[k],
                presets@.len() == u.len() + (if it.index() >= 1 && !has_named(u, "json"@) { 1int } else { 0 })
                    + (if it.index() >= 2 && !has_named(u, "logfmt"@) { 1int } else { 0 }),
                it.index() >= 1 && !has_named(u, "json"@) ==> is_builtin_json(presets@[u.len() as int]),
                it.index() >= 2 && !has_named(u, "logfmt"@) ==> is_builtin_logfmt(
                    presets@[u.len() + (if !has_named(u, "json"@) { 1int } else { 0 })],
                ),
        {
            let ghost k = it.index();
            let mut shadowed = false;
            let mut m: usize = 0;
            while m < user_names.len()
                invariant
                    m <= user_names@.len(),
                    user_names@.len() == u.len(),
                    forall|q: int| 0 <= q < u.len() ==> #[trigger] user_names@[q]@ == u[q].name@,
                    shadowed == exists|q: int| 0 <= q < m && #[trigger] u[q].name@ == builtin.name@,
                decreases user_names@.len() - m,
            {
                if str_eq(user_names[m].as_str(), builtin.name.as_str()) {
                    shadowed = true;
                }
                m = m + 1;
            }
            assert(shadowed == has_named(u, builtin.name@));
            assert(builtin == b[k]);
            proof {
                reveal_strlit("json");
                reveal_strlit("logfmt");
            }
            if !shadowed {
                presets.push(builtin);
            }
        }
        PresetRegistry { presets }
    }

    /// Lookup preset by name.
    pub fn get_by_name(&self, name: &str) -> (r: Option<&CompiledPreset>)
        ensures
            match r {
                Some(p) => first_named(self.presets(), name@, 0) >= 0 && *p == self.presets()[first_named(
                    self.presets(),
                    name@,
                    0,
                )],
                None => first_named(self.presets(), name@, 0) < 0,
            },
    {
        let mut i: usize = 0;
        while i < self.presets.len() && !str_eq(self.presets[i].name.as_str(), name)
            invariant
                i <= self.presets@.len(),
                first_named(self.presets@, name@, i as int) == first_named(self.presets@, name@, 0),
            decreases self.presets@.len() - i,
        {
            i = i + 1;
        }
        if i < self.presets.len() {
            Some(&self.presets[i])
        } else {
            None
        }
    }

    /// Try each named preset in order. Returns first `Some` result.
    pub fn render_line(&self, line: &str, renderer_names: &[String], flags: Option<u32>) -> (r: Option<
        Vec<StyledSegment>,
    >)
        ensures
            render_line_outcome(self.presets(), line@, renderer_names@, flags, opt_segments(r)),
    {
        if renderer_names.len() == 0 {
            return None;
        }
        let mut i: usize = 0;
        while i < renderer_names.len()
            invariant
                i <= renderer_names@.len(),
                forall|j: int| 0 <= j < i ==> #[trigger] renders_nothing(self.presets(), renderer_names@, j, line@, flags),
            decreases renderer_names@.len() - i,
        {
            match self.get_by_name(renderer_names[i].as_str()) {
                Some(preset) => {
                    let out = preset.render(line, flags);
                    match out {
                        Some(segments) => {
                            return Some(segments);
                        },
                        None => {},
                    }
                },
                None => {},
            }
            i = i + 1;
        }
        None
    }

    /// For sources without explicit renderers — auto-detect presets, try each.
    pub fn render_line_auto(&self, line: &str, filename: Option<&str>, flags: Option<u32>) -> (r: Option<
        Vec<StyledSegment>,
    >)
        ensures
            ({
                let d = detected_positions(self.presets(), opt_text(filename), flags);
                match r {
                    Some(v) => exists|i: int|
                        #![trigger d[i]]
                        0 <= i < d.len() && render_outcome(self.presets()[d[i]], line@, flags, opt_segments(Some(v)))
                            && forall|j: int|
                            0 <= j < i ==> render_outcome(self.presets()[#[trigger] d[j]], line@, flags, None),
                    None => forall|i: int| 0 <= i < d.len() ==> render_outcome(self.presets()[#[trigger] d[i]], line@, flags, None),
                }
            }),
    {
        let detected = detect_presets(self.presets.as_slice(), filename, flags);
        let ghost d = detected_positions(self.presets@, opt_text(filename), flags);
        let mut i: usize = 0;
        while i < detected.len()
            invariant
                d == detected_positions(self.presets@, opt_text(filename), flags),
                detected@.len() == d.len(),
                forall|j: int| 0 <= j < detected@.len() ==> *detected@[j] == self.presets@[#[trigger] d[j]],
                i <= detected@.len(),
                forall|j: int| 0 <= j < i ==> render_outcome(self.presets@[#[trigger] d[j]], line@, flags, None),
            decreases detected@.len() - i,
        {
            let preset = detected[i];
            assert(*preset == self.presets@[d[i as int]]);
            let out = preset.render(line, flags);
            match out {
                Some(segments) => {
                    assert(render_outcome(self.presets@[d[i as int]], line@, flags, opt_segments(Some(segments))));
                    assert(forall|j: int| 0 <= j < i ==> render_outcome(self.presets@[#[trigger] d[j]], line@, flags, None));
                    assert(0 <= i < d.len());
                    assert(self.presets() == self.presets@);
                    assert(exists|k: int|
                        #![trigger d[k]]
                        0 <= k < d.len() && render_outcome(self.presets()[d[k]], line@, flags, opt_segments(Some(segments)))
                            && forall|j: int|
                            0 <= j < k ==> render_outcome(self.presets()[#[trigger] d[j]], line@, flags, None));
                    return Some(segments);
                },
                None => {},
            }
            i = i + 1;
        }
        None
    }
}

} // verus!
