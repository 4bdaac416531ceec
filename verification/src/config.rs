use vstd::prelude::*;
use crate::text::{parse_i32, parse_signed, parse_u32, parse_unsigned, parse_usize};
use crate::types::str_chars;

verus! {

// ---------------------------------------------------------------- options

/// Engine options, grouped by subsystem.
#[derive(Clone, Debug, PartialEq, Eq)]
pub struct EngineOptions {
    pub eval: EvalOptions,
    pub search: SearchOptions,
    pub syzygy: SyzygyOptions,
    pub criticality: CriticalityOptions,
}

/// Percent scales of the evaluation terms.
#[derive(Clone, Copy, Debug, PartialEq, Eq)]
pub struct EvalOptions {
    pub material_scale: i32,
    pub pst_scale: i32,
    pub mobility_scale: i32,
    pub pawn_structure_scale: i32,
    pub king_safety_scale: i32,
}

#[derive(Clone, Copy, Debug, PartialEq, Eq)]
pub struct SearchOptions {
    pub threads: usize,
    pub lazy_smp: bool,
    pub see: bool,
    pub see_qsearch_pruning: bool,
    pub see_capture_ordering: bool,
    pub forward_futility_pruning: bool,
}

#[derive(Clone, Debug, PartialEq, Eq)]
pub struct SyzygyOptions {
    pub path: String,
    pub probe_depth: u32,
    pub probe_limit: usize,
    pub fifty_move_rule: bool,
}

#[derive(Clone, Debug, PartialEq, Eq)]
pub struct CriticalityOptions {
    pub log_dir: String,
    pub probe_permille: u32,
    pub futility_probe_permille: u32,
}

impl Default for EvalOptions {
    /// Every term at 100 percent.
    fn default() -> (o: Self)
        ensures
            o.material_scale == 100,
            o.pst_scale == 100,
            o.mobility_scale == 100,
            o.pawn_structure_scale == 100,
            o.king_safety_scale == 100,
    {
        EvalOptions {
            material_scale: 100,
            pst_scale: 100,
            mobility_scale: 100,
            pawn_structure_scale: 100,
            king_safety_scale: 100,
        }
    }
}

impl Default for SearchOptions {
    /// One thread, every search feature on.
    fn default() -> (o: Self)
        ensures
            o.threads == 1,
            o.lazy_smp,
            o.see,
            o.see_qsearch_pruning,
            o.see_capture_ordering,
            o.forward_futility_pruning,
    {
        SearchOptions {
            threads: 1,
            lazy_smp: true,
            see: true,
            see_qsearch_pruning: true,
            see_capture_ordering: true,
            forward_futility_pruning: true,
        }
    }
}

impl Default for SyzygyOptions {
    /// No tablebase path; probe from depth 1 up to six pieces; the fifty-move rule on.
    fn default() -> (o: Self)
        ensures
            o.path@ == Seq::<char>::empty(),
            o.probe_depth == 1,
            o.probe_limit == 6,
            o.fifty_move_rule,
    {
        SyzygyOptions { path: String::new(), probe_depth: 1, probe_limit: 6, fifty_move_rule: true }
    }
}

impl CriticalityOptions {
    /// The criticality settings from their configured texts: the log directory (empty
    /// when unset) and the probe rates in permille, parsed and clamped to 0..=1000
    /// (0 when unset or unreadable).
    pub fn from_settings(
        log_dir: Option<String>,
        probe_permille: Option<&str>,
        futility_probe_permille: Option<&str>,
    ) -> (o: Self)
        ensures
            o.log_dir@ == match log_dir {
                Some(d) => d@,
                None => Seq::<char>::empty(),
            },
            o.probe_permille == permille_setting(probe_permille),
            o.futility_probe_permille == permille_setting(futility_probe_permille),
    {
        let dir = match log_dir {
            Some(d) => d,
            None => String::new(),
        };
        CriticalityOptions {
            log_dir: dir,
            probe_permille: permille_from(probe_permille),
            futility_probe_permille: permille_from(futility_probe_permille),
        }
    }
}

/// A permille rate from its text: parsed, clamped to 0..=1000, 0 when absent or
/// unreadable.
pub open spec fn permille_setting(text: Option<&str>) -> u32 {
    match text {
        None => 0,
        Some(t) => match parse_unsigned(t@, u32::MAX as int) {
            None => 0,
            Some(v) => if v > 1000 {
                1000
            } else {
                v as u32
            },
        },
    }
}

fn permille_from(text: Option<&str>) -> (v: u32)
    ensures
        v == permille_setting(text),
{
    match text {
        None => 0,
        Some(t) => match parse_u32(t) {
            None => 0,
            Some(v) => if v > 1000 {
                1000
            } else {
                v
            },
        },
    }
}

impl Default for CriticalityOptions {
    /// No log directory, no probing.
    fn default() -> (o: Self)
        ensures
            o.log_dir@ == Seq::<char>::empty(),
            o.probe_permille == 0,
            o.futility_probe_permille == 0,
    {
        CriticalityOptions { log_dir: String::new(), probe_permille: 0, futility_probe_permille: 0 }
    }
}

impl Default for EngineOptions {
    fn default() -> (o: Self)
        ensures
            o.eval.material_scale == 100,
            o.eval.pst_scale == 100,
            o.eval.mobility_scale == 100,
            o.eval.pawn_structure_scale == 100,
            o.eval.king_safety_scale == 100,
            o.search.threads == 1,
            o.search.lazy_smp,
            o.search.see,
            o.search.see_qsearch_pruning,
            o.search.see_capture_ordering,
            o.search.forward_futility_pruning,
            o.syzygy.path@ == Seq::<char>::empty(),
            o.syzygy.probe_depth == 1,
            o.syzygy.probe_limit == 6,
            o.syzygy.fifty_move_rule,
            o.criticality.log_dir@ == Seq::<char>::empty(),
            o.criticality.probe_permille == 0,
            o.criticality.futility_probe_permille == 0,
    {
        EngineOptions {
            eval: EvalOptions::default(),
            search: SearchOptions::default(),
            syzygy: SyzygyOptions::default(),
            criticality: CriticalityOptions::default(),
        }
    }
}

// ---------------------------------------------------------------- option names

/// The lower-case form of a character (`char::to_lowercase`): one or more characters.
pub uninterp spec fn char_lowercase(c: char) -> Seq<char>;

/// The lower-case form of `c` (`char::to_lowercase`), collected into a string.
#[verifier::external_body]
fn lowercase_text(c: char) -> (t: String)
    ensures
        t@ == char_lowercase(c),
        'A' <= c <= 'Z' ==> t@ == seq![((c as u32) + 32) as char],
        (c as u32) < 128 && !('A' <= c <= 'Z') ==> t@ == seq![c],
{
    c.to_lowercase().collect()
}

/// ASCII white space (`char::is_ascii_whitespace`): space, tab, line feed, form feed,
/// carriage return.
pub open spec fn is_ascii_white(c: char) -> bool {
    c == ' ' || c == '\t' || c == '\n' || c == '\x0C' || c == '\r'
}

/// The lower-case form of a character as `char::to_lowercase` gives it: an ASCII
/// capital becomes its small letter, other ASCII characters stay, and beyond ASCII
/// it is whatever the Unicode tables say.
pub open spec fn lower_form(c: char) -> Seq<char> {
    if 'A' <= c <= 'Z' {
        seq![((c as u32) + 32) as char]
    } else if (c as u32) < 128 {
        seq![c]
    } else {
        char_lowercase(c)
    }
}

/// An option name with ASCII white space, `_` and `-` dropped and the rest lower-cased.
pub open spec fn normalized_name(s: Seq<char>) -> Seq<char>
    decreases s.len(),
{
    if s.len() == 0 {
        Seq::empty()
    } else {
        let c = s.last();
        let rest = normalized_name(s.drop_last());
        if is_ascii_white(c) || c == '_' || c == '-' {
            rest
        } else {
            rest + lower_form(c)
        }
    }
}

pub fn normalize_option_name(name: &str) -> (key: String)
    ensures
        key@ == normalized_name(name@),
{
    let cs = str_chars(name);
    let mut key = String::new();
    let mut i: usize = 0;
    while i < cs.len()
        invariant
            cs@ == name@,
            i <= cs.len(),
            key@ == normalized_name(cs@.subrange(0, i as int)),
        decreases cs.len() - i,
    {
        let c = cs[i];
        proof {
            assert(cs@.subrange(0, i as int + 1).drop_last() =~= cs@.subrange(0, i as int));
        }
        if !(c == ' ' || c == '\t' || c == '\n' || c == '\x0C' || c == '\r' || c == '_' || c == '-') {
            let ghost k0 = key@;
            let lower = lowercase_text(c);
            crate::text::push_text(&mut key, lower.as_str());
            proof {
                if 'A' <= c <= 'Z' {
                    assert(key@ =~= k0 + lower_form(c));
                } else if (c as u32) < 128 {
                    assert(key@ =~= k0 + lower_form(c));
                }
            }
        }
        i += 1;
    }
    proof {
        assert(cs@.subrange(0, cs.len() as int) =~= cs@);
    }
    key
}

/// Whether two strings hold the same characters.
pub fn text_eq(a: &str, b: &str) -> (r: bool)
    ensures
        r == (a@ == b@),
{
    let x = str_chars(a);
    let y = str_chars(b);
    if x.len() != y.len() {
        return false;
    }
    let mut i: usize = 0;
    while i < x.len()
        invariant
            x@ == a@,
            y@ == b@,
            x.len() == y.len(),
            i <= x.len(),
            forall|k: int| 0 <= k < i ==> x@[k] == y@[k],
        decreases x.len() - i,
    {
        if x[i] != y[i] {
            return false;
        }
        i += 1;
    }
    proof {
        assert(x@ =~= y@);
    }
    true
}

// ---------------------------------------------------------------- settings

/// `v` limited to `lo..=hi`.
pub open spec fn clamped(v: int, lo: int, hi: int) -> int {
    if v < lo {
        lo
    } else if v > hi {
        hi
    } else {
        v
    }
}

/// An evaluation scale from its text: an `i32` limited to 0..=300.
pub open spec fn scale_setting(text: Seq<char>) -> Option<i32> {
    match parse_signed(text, i32::MIN as int, i32::MAX as int) {
        Some(v) => Some(clamped(v, 0, 300) as i32),
        None => None,
    }
}

/// A `usize` setting from its text, limited to `lo..=hi`.
pub open spec fn usize_setting(text: Seq<char>, lo: usize, hi: usize) -> Option<usize> {
    match parse_unsigned(text, usize::MAX as int) {
        Some(v) => Some(clamped(v, lo as int, hi as int) as usize),
        None => None,
    }
}

/// A `u32` setting from its text, limited to `lo..=hi`.
pub open spec fn u32_setting(text: Seq<char>, lo: u32, hi: u32) -> Option<u32> {
    match parse_unsigned(text, u32::MAX as int) {
        Some(v) => Some(clamped(v, lo as int, hi as int) as u32),
        None => None,
    }
}

/// The ASCII lower-case form of a text (`str::to_ascii_lowercase`).
pub open spec fn ascii_lower(s: Seq<char>) -> Seq<char> {
    s.map_values(
        |c: char|
            if 'A' <= c <= 'Z' {
                ((c as u32) + 32) as char
            } else {
                c
            },
    )
}

/// A switch from its text, in any ASCII case: `true`, `1`, `yes`, `on` or `false`,
/// `0`, `no`, `off`.
pub open spec fn bool_setting(text: Seq<char>) -> Option<bool> {
    let t = ascii_lower(text);
    if t == "true"@ || t == "1"@ || t == "yes"@ || t == "on"@ {
        Some(true)
    } else if t == "false"@ || t == "0"@ || t == "no"@ || t == "off"@ {
        Some(false)
    } else {
        None
    }
}

fn ascii_lowercase(s: &str) -> (r: String)
    ensures
        r@ == ascii_lower(s@),
{
    let cs = str_chars(s);
    let mut out = String::new();
    let mut i: usize = 0;
    while i < cs.len()
        invariant
            cs@ == s@,
            i <= cs.len(),
            out@ == ascii_lower(cs@.subrange(0, i as int)),
        decreases cs.len() - i,
    {
        let c = cs[i];
        let l = if 'A' <= c && c <= 'Z' {
            ((c as u32) + 32) as u8 as char
        } else {
            c
        };
        crate::types::push_char(&mut out, l);
        proof {
            assert(ascii_lower(cs@.subrange(0, i as int + 1)) =~= ascii_lower(
                cs@.subrange(0, i as int),
            ).push(l));
        }
        i += 1;
    }
    proof {
        assert(cs@.subrange(0, cs.len() as int) =~= cs@);
    }
    out
}

pub fn set_scale(target: &mut i32, value: &str) -> (ok: bool)
    ensures
        ok == scale_setting(value@) is Some,
        *final(target) == match scale_setting(value@) {
            Some(v) => v,
            None => *old(target),
        },
{
    let scale = match parse_i32(value) {
        Some(s) => s,
        None => {
            return false;
        },
    };
    *target = if scale < 0 {
        0
    } else if scale > 300 {
        300
    } else {
        scale
    };
    true
}

pub fn set_usize(target: &mut usize, value: &str, min: usize, max: usize) -> (ok: bool)
    requires
        min <= max,
    ensures
        ok == usize_setting(value@, min, max) is Some,
        *final(target) == match usize_setting(value@, min, max) {
            Some(v) => v,
            None => *old(target),
        },
{
    let parsed = match parse_usize(value) {
        Some(p) => p,
        None => {
            return false;
        },
    };
    *target = if parsed < min {
        min
    } else if parsed > max {
        max
    } else {
        parsed
    };
    true
}

pub fn set_threads(target: &mut usize, value: &str) -> (ok: bool)
    ensures
        ok == usize_setting(value@, 1, 64) is Some,
        *final(target) == match usize_setting(value@, 1, 64) {
            Some(v) => v,
            None => *old(target),
        },
{
    set_usize(target, value, 1, 64)
}

pub fn set_u32(target: &mut u32, value: &str, min: u32, max: u32) -> (ok: bool)
    requires
        min <= max,
    ensures
        ok == u32_setting(value@, min, max) is Some,
        *final(target) == match u32_setting(value@, min, max) {
            Some(v) => v,
            None => *old(target),
        },
{
    let parsed = match parse_u32(value) {
        Some(p) => p,
        None => {
            return false;
        },
    };
    *target = if parsed < min {
        min
    } else if parsed > max {
        max
    } else {
        parsed
    };
    true
}

pub fn set_bool(target: &mut bool, value: &str) -> (ok: bool)
    ensures
        ok == bool_setting(value@) is Some,
        *final(target) == match bool_setting(value@) {
            Some(v) => v,
            None => *old(target),
        },
{
    let lower = ascii_lowercase(value);
    let t = lower.as_str();
    if text_eq(t, "true") || text_eq(t, "1") || text_eq(t, "yes") || text_eq(t, "on") {
        *target = true;
        true
    } else if text_eq(t, "false") || text_eq(t, "0") || text_eq(t, "no") || text_eq(t, "off") {
        *target = false;
        true
    } else {
        false
    }
}


// ---------------------------------------------------------------- UCI options

/// What setting option `key` (a normalized name) to `value` does to `o`: `new` is `o`
/// with the one field the key names set from the value. Unknown keys and unreadable
/// values leave nothing to set.
pub open spec fn option_set(o: EngineOptions, new: EngineOptions, key: Seq<char>, value: Seq<char>) -> bool {
    if key == "threads"@ || key == "searchthreads"@ {
        usize_setting(value, 1, 64) matches Some(v) && new == EngineOptions {
            search: SearchOptions { threads: v, ..o.search },
            ..o
        }
    } else if key == "searchlazysmp"@ {
        bool_setting(value) matches Some(v) && new == EngineOptions {
            search: SearchOptions { lazy_smp: v, ..o.search },
            ..o
        }
    } else if key == "evalmaterialscale"@ {
        scale_setting(value) matches Some(v) && new == EngineOptions {
            eval: EvalOptions { material_scale: v, ..o.eval },
            ..o
        }
    } else if key == "evalpstscale"@ {
        scale_setting(value) matches Some(v) && new == EngineOptions {
            eval: EvalOptions { pst_scale: v, ..o.eval },
            ..o
        }
    } else if key == "evalmobilityscale"@ {
        scale_setting(value) matches Some(v) && new == EngineOptions {
            eval: EvalOptions { mobility_scale: v, ..o.eval },
            ..o
        }
    } else if key == "evalpawnstructurescale"@ {
        scale_setting(value) matches Some(v) && new == EngineOptions {
            eval: EvalOptions { pawn_structure_scale: v, ..o.eval },
            ..o
        }
    } else if key == "evalkingsafetyscale"@ {
        scale_setting(value) matches Some(v) && new == EngineOptions {
            eval: EvalOptions { king_safety_scale: v, ..o.eval },
            ..o
        }
    } else if key == "searchsee"@ {
        bool_setting(value) matches Some(v) && new == EngineOptions {
            search: SearchOptions { see: v, ..o.search },
            ..o
        }
    } else if key == "searchseeqsearchpruning"@ {
        bool_setting(value) matches Some(v) && new == EngineOptions {
            search: SearchOptions { see_qsearch_pruning: v, ..o.search },
            ..o
        }
    } else if key == "searchseecaptureordering"@ {
        bool_setting(value) matches Some(v) && new == EngineOptions {
            search: SearchOptions { see_capture_ordering: v, ..o.search },
            ..o
        }
    } else if key == "searchforwardfutilitypruning"@ {
        bool_setting(value) matches Some(v) && new == EngineOptions {
            search: SearchOptions { forward_futility_pruning: v, ..o.search },
            ..o
        }
    } else if key == "syzygypath"@ {
        new.syzygy.path@ == value && new == EngineOptions {
            syzygy: SyzygyOptions { path: new.syzygy.path, ..o.syzygy },
            ..o
        }
    } else if key == "syzygyprobedepth"@ {
        u32_setting(value, 0, 64) matches Some(v) && new == EngineOptions {
            syzygy: SyzygyOptions { probe_depth: v, ..o.syzygy },
            ..o
        }
    } else if key == "syzygyprobelimit"@ {
        usize_setting(value, 0, 6) matches Some(v) && new == EngineOptions {
            syzygy: SyzygyOptions { probe_limit: v, ..o.syzygy },
            ..o
        }
    } else if key == "syzygy50moverule"@ {
        bool_setting(value) matches Some(v) && new == EngineOptions {
            syzygy: SyzygyOptions { fifty_move_rule: v, ..o.syzygy },
            ..o
        }
    } else if key == "criticalitylogdir"@ {
        new.criticality.log_dir@ == value && new == EngineOptions {
            criticality: CriticalityOptions { log_dir: new.criticality.log_dir, ..o.criticality },
            ..o
        }
    } else if key == "criticalityprobepermille"@ {
        u32_setting(value, 0, 1000) matches Some(v) && new == EngineOptions {
            criticality: CriticalityOptions { probe_permille: v, ..o.criticality },
            ..o
        }
    } else {
        false
    }
}

impl EngineOptions {
    /// Sets a UCI option by name (white space, `_` and `-` ignored, any case). Returns
    /// whether the name is known and the value could be read; otherwise nothing changes.
    pub fn set_uci_option(&mut self, name: &str, value: &str) -> (ok: bool)
        ensures
            ok ==> option_set(*old(self), *final(self), normalized_name(name@), value@),
            !ok ==> *final(self) == *old(self),
            !ok ==> forall|o2: EngineOptions|
                !#[trigger] option_set(*old(self), o2, normalized_name(name@), value@),
    {
        let key_text = normalize_option_name(name);
        let key = key_text.as_str();
        if text_eq(key, "threads") || text_eq(key, "searchthreads") {
            set_threads(&mut self.search.threads, value)
        } else if text_eq(key, "searchlazysmp") {
            set_bool(&mut self.search.lazy_smp, value)
        } else if text_eq(key, "evalmaterialscale") {
            set_scale(&mut self.eval.material_scale, value)
        } else if text_eq(key, "evalpstscale") {
            set_scale(&mut self.eval.pst_scale, value)
        } else if text_eq(key, "evalmobilityscale") {
            set_scale(&mut self.eval.mobility_scale, value)
        } else if text_eq(key, "evalpawnstructurescale") {
            set_scale(&mut self.eval.pawn_structure_scale, value)
        } else if text_eq(key, "evalkingsafetyscale") {
            set_scale(&mut self.eval.king_safety_scale, value)
        } else if text_eq(key, "searchsee") {
            set_bool(&mut self.search.see, value)
        } else if text_eq(key, "searchseeqsearchpruning") {
            set_bool(&mut self.search.see_qsearch_pruning, value)
        } else if text_eq(key, "searchseecaptureordering") {
            set_bool(&mut self.search.see_capture_ordering, value)
        } else if text_eq(key, "searchforwardfutilitypruning") {
            set_bool(&mut self.search.forward_futility_pruning, value)
        } else if text_eq(key, "syzygypath") {
            self.syzygy.path = value.to_owned();
            true
        } else if text_eq(key, "syzygyprobedepth") {
            set_u32(&mut self.syzygy.probe_depth, value, 0, 64)
        } else if text_eq(key, "syzygyprobelimit") {
            set_usize(&mut self.syzygy.probe_limit, value, 0, 6)
        } else if text_eq(key, "syzygy50moverule") {
            set_bool(&mut self.syzygy.fifty_move_rule, value)
        } else if text_eq(key, "criticalitylogdir") {
            self.criticality.log_dir = value.to_owned();
            true
        } else if text_eq(key, "criticalityprobepermille") {
            set_u32(&mut self.criticality.probe_permille, value, 0, 1000)
        } else {
            false
        }
    }
}

/// `a / b` rounded toward zero, as integer division does.
pub open spec fn div_trunc(a: int, b: int) -> int {
    if a >= 0 {
        a / b
    } else {
        -((-a) / b)
    }
}

/// A score scaled by a percentage.
pub fn scale_score(score: i32, scale: i32) -> (r: i32)
    requires
        i32::MIN <= score * scale <= i32::MAX,
    ensures
        r == div_trunc(score * scale, 100),
{
    score * scale / 100
}

/// Both halves of a (midgame, endgame) score scaled by a percentage.
pub fn scale_score_pair(score: (i32, i32), scale: i32) -> (r: (i32, i32))
    requires
        i32::MIN <= score.0 * scale <= i32::MAX,
        i32::MIN <= score.1 * scale <= i32::MAX,
    ensures
        r.0 == div_trunc(score.0 * scale, 100),
        r.1 == div_trunc(score.1 * scale, 100),
{
    (scale_score(score.0, scale), scale_score(score.1, scale))
}

// ---------------------------------------------------------------- laws on names

/// Normalizing a name works character by character: the name of two joined texts
/// is the two names joined.
pub proof fn lemma_normalized_concat(a: Seq<char>, b: Seq<char>)
    ensures
        normalized_name(a + b) == normalized_name(a) + normalized_name(b),
    decreases b.len(),
{
    if b.len() == 0 {
        assert(a + b =~= a);
        assert(normalized_name(b) =~= Seq::<char>::empty());
        assert(normalized_name(a) + Seq::<char>::empty() =~= normalized_name(a));
    } else {
        let c = b.last();
        lemma_normalized_concat(a, b.drop_last());
        assert((a + b).drop_last() =~= a + b.drop_last());
        assert((a + b).last() == c);
        if is_ascii_white(c) || c == '_' || c == '-' {
        } else {
            assert(normalized_name(a) + normalized_name(b.drop_last()) + lower_form(c) =~= normalized_name(a)
                + (normalized_name(b.drop_last()) + lower_form(c)));
        }
    }
}

/// An option name is read without its white space, `_` and `-`: putting one of them
/// anywhere into a name names the same option.
pub proof fn law_option_name_ignores_separators(a: Seq<char>, b: Seq<char>, c: char)
    requires
        is_ascii_white(c) || c == '_' || c == '-',
    ensures
        normalized_name(a + seq![c] + b) == normalized_name(a + b),
{
    lemma_normalized_concat(a + seq![c], b);
    lemma_normalized_concat(a, seq![c]);
    lemma_normalized_concat(a, b);
    assert(seq![c].drop_last() =~= Seq::<char>::empty());
    assert(seq![c].last() == c);
    assert(normalized_name(seq![c].drop_last()) =~= Seq::<char>::empty());
    assert(normalized_name(seq![c]) =~= Seq::<char>::empty());
    assert(normalized_name(a) + Seq::<char>::empty() =~= normalized_name(a));
}

/// An option name is read without case: an ASCII letter in either case names the
/// same option.
pub proof fn law_option_name_ignores_case(a: Seq<char>, b: Seq<char>, c: char)
    requires
        'a' <= c <= 'z',
    ensures
        normalized_name(a + seq![((c as u32) - 32) as char] + b) == normalized_name(a + seq![c] + b),
{
    let up = ((c as u32) - 32) as char;
    lemma_normalized_concat(a + seq![up], b);
    lemma_normalized_concat(a, seq![up]);
    lemma_normalized_concat(a + seq![c], b);
    lemma_normalized_concat(a, seq![c]);
    assert(seq![up].drop_last() =~= Seq::<char>::empty());
    assert(seq![c].drop_last() =~= Seq::<char>::empty());
    assert('A' <= up <= 'Z');
    assert(((up as u32) + 32) as char == c);
    assert(seq![up].last() == up);
    assert(seq![c].last() == c);
    assert(normalized_name(seq![up].drop_last()) =~= Seq::<char>::empty());
    assert(normalized_name(seq![c].drop_last()) =~= Seq::<char>::empty());
    assert(lower_form(up) =~= seq![c]);
    assert(lower_form(c) =~= seq![c]);
    assert(Seq::<char>::empty() + seq![c] =~= seq![c]);
    assert(normalized_name(seq![up]) =~= seq![c]);
    assert(normalized_name(seq![c]) =~= seq![c]);
}



} // verus!
