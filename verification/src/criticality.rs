use vstd::prelude::*;
use crate::text::{decimal, i64_text, parse_u64, parse_unsigned, push_text, signed_decimal, u64_text};
use crate::types::{
    Color, Move, Piece, PIECE_NONE, move_name, move_uci, piece_type, piece_type_letter,
    type_of_piece,
};

verus! {

/// The version of the record layout written to the logs.
pub const CRITICALITY_SCHEMA_VERSION: u32 = 2;

/// How a search score compares with the window it was searched in.
#[derive(Clone, Copy, Debug, PartialEq, Eq, Structural)]
pub enum CriticalityEffect {
    Unchanged,
    Alpha,
    Cutoff,
}

/// The effect of `score` in the window `(alpha, beta)`: a cutoff at or above `beta`,
/// an alpha raise above `alpha`, none otherwise.
pub open spec fn effect_of(score: int, alpha: int, beta: int) -> CriticalityEffect {
    if score >= beta {
        CriticalityEffect::Cutoff
    } else if score > alpha {
        CriticalityEffect::Alpha
    } else {
        CriticalityEffect::Unchanged
    }
}

pub open spec fn effect_text(e: CriticalityEffect) -> Seq<char> {
    match e {
        CriticalityEffect::Unchanged => "none"@,
        CriticalityEffect::Alpha => "alpha"@,
        CriticalityEffect::Cutoff => "cutoff"@,
    }
}

impl CriticalityEffect {
    pub fn from_score(score: i32, alpha: i32, beta: i32) -> (e: Self)
        ensures
            e == effect_of(score as int, alpha as int, beta as int),
    {
        if score >= beta {
            return CriticalityEffect::Cutoff;
        }
        if score > alpha {
            return CriticalityEffect::Alpha;
        }
        CriticalityEffect::Unchanged
    }

    pub fn as_str(self) -> (s: &'static str)
        ensures
            s@ == effect_text(self),
    {
        match self {
            CriticalityEffect::Unchanged => "none",
            CriticalityEffect::Alpha => "alpha",
            CriticalityEffect::Cutoff => "cutoff",
        }
    }
}

/// Where a record's label comes from.
#[derive(Clone, Copy, Debug, PartialEq, Eq, Structural)]
pub enum CriticalityLabelSource {
    Unlabeled,
    ObservedResearch,
    CounterfactualProbe,
}

pub open spec fn label_text(l: CriticalityLabelSource) -> Seq<char> {
    match l {
        CriticalityLabelSource::Unlabeled => "none"@,
        CriticalityLabelSource::ObservedResearch => "observed_research"@,
        CriticalityLabelSource::CounterfactualProbe => "counterfactual_probe"@,
    }
}

impl CriticalityLabelSource {
    pub fn as_str(self) -> (s: &'static str)
        ensures
            s@ == label_text(self),
    {
        match self {
            CriticalityLabelSource::Unlabeled => "none",
            CriticalityLabelSource::ObservedResearch => "observed_research",
            CriticalityLabelSource::CounterfactualProbe => "counterfactual_probe",
        }
    }
}

/// The pruning decision a record describes.
#[derive(Clone, Copy, Debug, PartialEq, Eq, Structural)]
pub enum CriticalityDecisionKind {
    Lmr,
    Futility,
}

pub open spec fn decision_text(d: CriticalityDecisionKind) -> Seq<char> {
    match d {
        CriticalityDecisionKind::Lmr => "lmr"@,
        CriticalityDecisionKind::Futility => "futility"@,
    }
}

impl CriticalityDecisionKind {
    pub fn as_str(self) -> (s: &'static str)
        ensures
            s@ == decision_text(self),
    {
        match self {
            CriticalityDecisionKind::Lmr => "lmr",
            CriticalityDecisionKind::Futility => "futility",
        }
    }
}

/// One logged pruning decision with its probe results.
#[derive(Clone, Debug)]
pub struct CriticalityRecord {
    pub decision_kind: CriticalityDecisionKind,
    pub pid: u32,
    pub game_id: u64,
    pub search_id: u64,
    pub root_depth: i32,
    pub ply: usize,
    pub node_hash: u64,
    pub side_to_move: Color,
    pub m: Move,
    pub from: u8,
    pub to: u8,
    pub piece: Piece,
    pub depth: i32,
    pub move_index: usize,
    pub base_reduction: i32,
    pub final_reduction: i32,
    pub new_depth: i32,
    pub history_score: i32,
    pub static_eval: i32,
    pub prev_static_eval: Option<i32>,
    pub alpha: i32,
    pub beta: i32,
    pub futility_margin: Option<i32>,
    pub static_alpha_margin: Option<i32>,
    pub is_pv: bool,
    pub is_cut_node: bool,
    pub improving: bool,
    pub is_killer: bool,
    pub is_counter: bool,
    pub tt_move_agreement: bool,
    pub label_source: CriticalityLabelSource,
    pub reduced_score: Option<i32>,
    pub full_score: Option<i32>,
    /// The position's score spread at the decision (centipawns), when known.
    pub sigma: Option<i32>,
}

/// The column names of the records' CSV rows.
pub open spec fn header_text() -> Seq<char> {
    "schema_version,decision_kind,pid,game_id,search_id,root_depth,ply,node_hash,side_to_move,move_uci,from,to,piece_type,depth,move_index,base_reduction,final_reduction,new_depth,history_score,static_eval,has_prev_static_eval,prev_static_eval,static_eval_delta,alpha,beta,futility_margin,static_alpha_margin,is_pv,is_cut_node,improving,is_killer,is_counter,tt_move_agreement,label_source,reduced_score,full_score,score_delta_cp,reduced_effect,full_effect,bound_changed,sigma"@
}

pub open spec fn bool_text(b: bool) -> Seq<char> {
    if b {
        "1"@
    } else {
        "0"@
    }
}

pub open spec fn color_text(c: Color) -> Seq<char> {
    match c {
        Color::White => "white"@,
        Color::Black => "black"@,
    }
}

/// An optional number: empty when absent.
pub open spec fn opt_text(v: Option<i32>) -> Seq<char> {
    match v {
        Some(x) => signed_decimal(x as int),
        None => Seq::empty(),
    }
}

/// The piece column: `.` for no piece, else the lower-case letter of its type.
pub open spec fn piece_text(p: Piece) -> Seq<char> {
    if p == PIECE_NONE {
        "."@
    } else {
        seq![piece_type_letter(type_of_piece(p))]
    }
}

pub open spec fn reduced_effect(r: CriticalityRecord) -> CriticalityEffect {
    match r.reduced_score {
        Some(s) => effect_of(s as int, r.alpha as int, r.beta as int),
        None => CriticalityEffect::Unchanged,
    }
}

pub open spec fn full_effect(r: CriticalityRecord) -> CriticalityEffect {
    match r.full_score {
        Some(s) => effect_of(s as int, r.alpha as int, r.beta as int),
        None => reduced_effect(r),
    }
}

/// The 41 columns of a record's row, in header order.
pub open spec fn row_fields(r: CriticalityRecord) -> Seq<Seq<char>> {
    seq![
        decimal(CRITICALITY_SCHEMA_VERSION as nat),
        decision_text(r.decision_kind),
        decimal(r.pid as nat),
        decimal(r.game_id as nat),
        decimal(r.search_id as nat),
        signed_decimal(r.root_depth as int),
        decimal(r.ply as nat),
        decimal(r.node_hash as nat),
        color_text(r.side_to_move),
        move_uci(r.m),
        decimal(r.from as nat),
        decimal(r.to as nat),
        piece_text(r.piece),
        signed_decimal(r.depth as int),
        decimal(r.move_index as nat),
        signed_decimal(r.base_reduction as int),
        signed_decimal(r.final_reduction as int),
        signed_decimal(r.new_depth as int),
        signed_decimal(r.history_score as int),
        signed_decimal(r.static_eval as int),
        bool_text(r.prev_static_eval is Some),
        opt_text(r.prev_static_eval),
        match r.prev_static_eval {
            Some(p) => signed_decimal(r.static_eval - p),
            None => Seq::empty(),
        },
        signed_decimal(r.alpha as int),
        signed_decimal(r.beta as int),
        opt_text(r.futility_margin),
        opt_text(r.static_alpha_margin),
        bool_text(r.is_pv),
        bool_text(r.is_cut_node),
        bool_text(r.improving),
        bool_text(r.is_killer),
        bool_text(r.is_counter),
        bool_text(r.tt_move_agreement),
        label_text(r.label_source),
        opt_text(r.reduced_score),
        opt_text(r.full_score),
        match (r.reduced_score, r.full_score) {
            (Some(a), Some(b)) => decimal(
                (if b - a >= 0 {
                    b - a
                } else {
                    a - b
                }) as nat,
            ),
            _ => Seq::empty(),
        },
        effect_text(reduced_effect(r)),
        effect_text(full_effect(r)),
        match r.full_score {
            Some(_) => bool_text(reduced_effect(r) != full_effect(r)),
            None => Seq::empty(),
        },
        opt_text(r.sigma),
    ]
}

/// The first `n` fields joined by commas.
pub open spec fn joined_upto(fields: Seq<Seq<char>>, n: int) -> Seq<char>
    decreases n,
{
    if n <= 0 {
        Seq::empty()
    } else if n == 1 {
        fields[0]
    } else {
        joined_upto(fields, n - 1) + ","@ + fields[n - 1]
    }
}

/// The fields joined by commas.
pub open spec fn joined(fields: Seq<Seq<char>>) -> Seq<char> {
    joined_upto(fields, fields.len() as int)
}

/// The record's values stay within what its row can print: the differences it
/// writes fit an `i32`.
pub open spec fn row_printable(r: CriticalityRecord) -> bool {
    &&& r.prev_static_eval matches Some(p) ==> i32::MIN <= r.static_eval - p <= i32::MAX
    &&& (r.reduced_score, r.full_score) matches (Some(a), Some(b)) ==> i32::MIN < b - a
        <= i32::MAX
}

/// `1` or `0`.
pub fn bool_int(value: bool) -> (s: String)
    ensures
        s@ == bool_text(value),
{
    let mut s = String::new();
    if value {
        push_text(&mut s, "1");
    } else {
        push_text(&mut s, "0");
    }
    s
}

pub fn color_name(color: Color) -> (s: &'static str)
    ensures
        s@ == color_text(color),
{
    match color {
        Color::White => "white",
        Color::Black => "black",
    }
}

fn opt_field(v: Option<i32>) -> (s: String)
    ensures
        s@ == opt_text(v),
{
    match v {
        Some(x) => i64_text(x as i64),
        None => String::new(),
    }
}

proof fn lemma_joined_prefix(fs: Seq<Seq<char>>, x: Seq<char>, n: int)
    requires
        0 <= n <= fs.len(),
    ensures
        joined_upto(fs.push(x), n) == joined_upto(fs, n),
    decreases n,
{
    if n > 1 {
        lemma_joined_prefix(fs, x, n - 1);
    }
}

/// The number of commas in a text: one less than the fields a split at commas
/// gives.
pub open spec fn comma_count(s: Seq<char>) -> nat
    decreases s.len(),
{
    if s.len() == 0 {
        0
    } else {
        comma_count(s.drop_last()) + if s.last() == ',' {
            1nat
        } else {
            0nat
        }
    }
}

/// A text without commas.
pub open spec fn comma_free(s: Seq<char>) -> bool {
    forall|i: int| 0 <= i < s.len() ==> s[i] != ','
}

pub proof fn lemma_comma_count_concat(a: Seq<char>, b: Seq<char>)
    ensures
        comma_count(a + b) == comma_count(a) + comma_count(b),
    decreases b.len(),
{
    if b.len() == 0 {
        assert(a + b =~= a);
    } else {
        lemma_comma_count_concat(a, b.drop_last());
        assert((a + b).drop_last() =~= a + b.drop_last());
    }
}

pub proof fn lemma_comma_free_count(s: Seq<char>)
    requires
        comma_free(s),
    ensures
        comma_count(s) == 0,
    decreases s.len(),
{
    if s.len() > 0 {
        lemma_comma_free_count(s.drop_last());
    }
}

/// Fields without commas, joined by commas, hold one comma fewer than fields.
pub proof fn lemma_joined_commas(fs: Seq<Seq<char>>, n: int)
    requires
        1 <= n <= fs.len(),
        forall|i: int| 0 <= i < n ==> comma_free(#[trigger] fs[i]),
    ensures
        comma_count(joined_upto(fs, n)) == n - 1,
    decreases n,
{
    reveal_strlit(",");
    if n == 1 {
        lemma_comma_free_count(fs[0]);
    } else {
        lemma_joined_commas(fs, n - 1);
        lemma_comma_count_concat(joined_upto(fs, n - 1) + ","@, fs[n - 1]);
        lemma_comma_count_concat(joined_upto(fs, n - 1), ","@);
        lemma_comma_free_count(fs[n - 1]);
        assert(comma_count(","@) == 1) by {
            reveal_strlit(",");
            assert(","@.len() == 1 && ","@.last() == ',');
            assert(","@.drop_last() =~= Seq::<char>::empty());
            assert(comma_count(Seq::<char>::empty()) == 0);
        }
    }
}

/// Decimal digits hold no comma.
pub proof fn lemma_decimal_comma_free(n: nat)
    ensures
        comma_free(decimal(n)),
    decreases n,
{
    if n >= 10 {
        lemma_decimal_comma_free(n / 10);
    }
}

pub proof fn lemma_signed_decimal_comma_free(n: int)
    ensures
        comma_free(signed_decimal(n)),
{
    if n < 0 {
        lemma_decimal_comma_free((-n) as nat);
    } else {
        lemma_decimal_comma_free(n as nat);
    }
}

/// Appends `,` and the next field to a row of the fields `fs`.
pub fn push_field(s: &mut String, field: &str, Ghost(fs): Ghost<Seq<Seq<char>>>)
    requires
        fs.len() >= 1,
        old(s)@ == joined(fs),
    ensures
        final(s)@ == joined(fs.push(field@)),
{
    push_text(s, ",");
    push_text(s, field);
    proof {
        lemma_joined_prefix(fs, field@, fs.len() as int);
    }
}

impl CriticalityRecord {
    pub fn header() -> (s: &'static str)
        ensures
            s@ == header_text(),
    {
        "schema_version,decision_kind,pid,game_id,search_id,root_depth,ply,node_hash,side_to_move,move_uci,from,to,piece_type,depth,move_index,base_reduction,final_reduction,new_depth,history_score,static_eval,has_prev_static_eval,prev_static_eval,static_eval_delta,alpha,beta,futility_margin,static_alpha_margin,is_pv,is_cut_node,improving,is_killer,is_counter,tt_move_agreement,label_source,reduced_score,full_score,score_delta_cp,reduced_effect,full_effect,bound_changed,sigma"
    }

    /// The first 14 columns of the row.
    fn row_start(&self, s: &mut String, Ghost(fs0): Ghost<Seq<Seq<char>>>) -> (fs1: Ghost<Seq<Seq<char>>>)
        requires
            fs0 == row_fields(*self).subrange(0, 1),
            old(s)@ == joined(fs0),
        ensures
            fs1@ == row_fields(*self).subrange(0, 14),
            final(s)@ == joined(fs1@),
    {
        let ghost mut fs = fs0;
        let mut piece_name = String::new();
        if self.piece == PIECE_NONE {
            push_text(&mut piece_name, ".");
        } else {
            crate::types::push_char(&mut piece_name, piece_type(self.piece).char_lower());
        }
        proof {
            assert(piece_name@ =~= piece_text(self.piece));
        }
        {
            let f = self.decision_kind.as_str();
            push_field(s, f, Ghost(fs));
            proof {
                fs = fs.push(f@);
            }
        }
        {
            let t = u64_text(self.pid as u64);
            let f = t.as_str();
            push_field(s, f, Ghost(fs));
            proof {
                fs = fs.push(f@);
            }
        }
        {
            let t = u64_text(self.game_id);
            let f = t.as_str();
            push_field(s, f, Ghost(fs));
            proof {
                fs = fs.push(f@);
            }
        }
        {
            let t = u64_text(self.search_id);
            let f = t.as_str();
            push_field(s, f, Ghost(fs));
            proof {
                fs = fs.push(f@);
            }
        }
        {
            let t = i64_text(self.root_depth as i64);
            let f = t.as_str();
            push_field(s, f, Ghost(fs));
            proof {
                fs = fs.push(f@);
            }
        }
        {
            let t = u64_text(self.ply as u64);
            let f = t.as_str();
            push_field(s, f, Ghost(fs));
            proof {
                fs = fs.push(f@);
            }
        }
        {
            let t = u64_text(self.node_hash);
            let f = t.as_str();
            push_field(s, f, Ghost(fs));
            proof {
                fs = fs.push(f@);
            }
        }
        {
            let f = color_name(self.side_to_move);
            push_field(s, f, Ghost(fs));
            proof {
                fs = fs.push(f@);
            }
        }
        {
            let t = move_name(self.m);
            let f = t.as_str();
            push_field(s, f, Ghost(fs));
            proof {
                fs = fs.push(f@);
            }
        }
        {
            let t = u64_text(self.from as u64);
            let f = t.as_str();
            push_field(s, f, Ghost(fs));
            proof {
                fs = fs.push(f@);
            }
        }
        {
            let t = u64_text(self.to as u64);
            let f = t.as_str();
            push_field(s, f, Ghost(fs));
            proof {
                fs = fs.push(f@);
            }
        }
        {
            let f = piece_name.as_str();
            push_field(s, f, Ghost(fs));
            proof {
                fs = fs.push(f@);
            }
        }
        {
            let t = i64_text(self.depth as i64);
            let f = t.as_str();
            push_field(s, f, Ghost(fs));
            proof {
                fs = fs.push(f@);
            }
        }
        proof {
            assert(row_fields(*self).len() == 41);
            assert(fs.len() == 14);
            assert(fs =~= row_fields(*self).subrange(0, 14));
        }
        Ghost(fs)
    }

    /// Columns 14 to 26 of the row.
    fn row_middle(&self, s: &mut String, Ghost(fs0): Ghost<Seq<Seq<char>>>) -> (fs1: Ghost<Seq<Seq<char>>>)
        requires
            row_printable(*self),
            fs0 == row_fields(*self).subrange(0, 14),
            old(s)@ == joined(fs0),
        ensures
            fs1@ == row_fields(*self).subrange(0, 27),
            final(s)@ == joined(fs1@),
    {
        let ghost mut fs = fs0;
        let (has_prev, prev, delta) = match self.prev_static_eval {
            Some(p) => (bool_int(true), i64_text(p as i64), i64_text((self.static_eval - p) as i64)),
            None => (bool_int(false), String::new(), String::new()),
        };
        {
            let t = u64_text(self.move_index as u64);
            let f = t.as_str();
            push_field(s, f, Ghost(fs));
            proof {
                fs = fs.push(f@);
            }
        }
        {
            let t = i64_text(self.base_reduction as i64);
            let f = t.as_str();
            push_field(s, f, Ghost(fs));
            proof {
                fs = fs.push(f@);
            }
        }
        {
            let t = i64_text(self.final_reduction as i64);
            let f = t.as_str();
            push_field(s, f, Ghost(fs));
            proof {
                fs = fs.push(f@);
            }
        }
        {
            let t = i64_text(self.new_depth as i64);
            let f = t.as_str();
            push_field(s, f, Ghost(fs));
            proof {
                fs = fs.push(f@);
            }
        }
        {
            let t = i64_text(self.history_score as i64);
            let f = t.as_str();
            push_field(s, f, Ghost(fs));
            proof {
                fs = fs.push(f@);
            }
        }
        {
            let t = i64_text(self.static_eval as i64);
            let f = t.as_str();
            push_field(s, f, Ghost(fs));
            proof {
                fs = fs.push(f@);
            }
        }
        {
            let f = has_prev.as_str();
            push_field(s, f, Ghost(fs));
            proof {
                fs = fs.push(f@);
            }
        }
        {
            let f = prev.as_str();
            push_field(s, f, Ghost(fs));
            proof {
                fs = fs.push(f@);
            }
        }
        {
            let f = delta.as_str();
            push_field(s, f, Ghost(fs));
            proof {
                fs = fs.push(f@);
            }
        }
        {
            let t = i64_text(self.alpha as i64);
            let f = t.as_str();
            push_field(s, f, Ghost(fs));
            proof {
                fs = fs.push(f@);
            }
        }
        {
            let t = i64_text(self.beta as i64);
            let f = t.as_str();
            push_field(s, f, Ghost(fs));
            proof {
                fs = fs.push(f@);
            }
        }
        {
            let t = opt_field(self.futility_margin);
            let f = t.as_str();
            push_field(s, f, Ghost(fs));
            proof {
                fs = fs.push(f@);
            }
        }
        {
            let t = opt_field(self.static_alpha_margin);
            let f = t.as_str();
            push_field(s, f, Ghost(fs));
            proof {
                fs = fs.push(f@);
            }
        }
        proof {
            assert(row_fields(*self).len() == 41);
            assert(fs.len() == 27);
            assert(fs =~= row_fields(*self).subrange(0, 27));
        }
        Ghost(fs)
    }

    /// The probe columns: both scores, their distance, both effects and whether the
    /// effect changed.
    #[verifier::rlimit(100)]
    fn row_outcomes(&self) -> (r: (String, String, String, CriticalityEffect, CriticalityEffect, &'static str))
        requires
            row_printable(*self),
        ensures
            r.0@ == row_fields(*self)[34],
            r.1@ == row_fields(*self)[35],
            r.2@ == row_fields(*self)[36],
            r.3 == reduced_effect(*self),
            r.4 == full_effect(*self),
            r.5@ == row_fields(*self)[39],
    {
        let reduced = opt_field(self.reduced_score);
        let full = opt_field(self.full_score);
        let score_delta = match (self.reduced_score, self.full_score) {
            (Some(r), Some(f)) => {
                let d = f - r;
                let a = if d >= 0 {
                    d
                } else {
                    -d
                };
                u64_text(a as u64)
            },
            _ => String::new(),
        };
        let reduced_effect = match self.reduced_score {
            Some(score) => CriticalityEffect::from_score(score, self.alpha, self.beta),
            None => CriticalityEffect::Unchanged,
        };
        let full_effect = match self.full_score {
            Some(score) => CriticalityEffect::from_score(score, self.alpha, self.beta),
            None => reduced_effect,
        };
        let bound_changed = match self.full_score {
            Some(_) => if reduced_effect != full_effect {
                "1"
            } else {
                "0"
            },
            None => "",
        };
        proof {
            reveal_strlit("");
        }
        (reduced, full, score_delta, reduced_effect, full_effect, bound_changed)
    }

    /// Columns 27 to 33 of the row: the flags and the label source.
    #[verifier::rlimit(100)]
    fn row_flags(&self, s: &mut String, Ghost(fs0): Ghost<Seq<Seq<char>>>) -> (fs1: Ghost<Seq<Seq<char>>>)
        requires
            fs0 == row_fields(*self).subrange(0, 27),
            old(s)@ == joined(fs0),
        ensures
            fs1@ == row_fields(*self).subrange(0, 34),
            final(s)@ == joined(fs1@),
    {
        let ghost mut fs = fs0;
        {
            let t = bool_int(self.is_pv);
            let f = t.as_str();
            push_field(s, f, Ghost(fs));
            proof {
                fs = fs.push(f@);
            }
        }
        {
            let t = bool_int(self.is_cut_node);
            let f = t.as_str();
            push_field(s, f, Ghost(fs));
            proof {
                fs = fs.push(f@);
            }
        }
        {
            let t = bool_int(self.improving);
            let f = t.as_str();
            push_field(s, f, Ghost(fs));
            proof {
                fs = fs.push(f@);
            }
        }
        {
            let t = bool_int(self.is_killer);
            let f = t.as_str();
            push_field(s, f, Ghost(fs));
            proof {
                fs = fs.push(f@);
            }
        }
        {
            let t = bool_int(self.is_counter);
            let f = t.as_str();
            push_field(s, f, Ghost(fs));
            proof {
                fs = fs.push(f@);
            }
        }
        {
            let t = bool_int(self.tt_move_agreement);
            let f = t.as_str();
            push_field(s, f, Ghost(fs));
            proof {
                fs = fs.push(f@);
            }
        }
        {
            let f = self.label_source.as_str();
            push_field(s, f, Ghost(fs));
            proof {
                fs = fs.push(f@);
            }
        }
        proof {
            assert(row_fields(*self).len() == 41);
            assert(fs.len() == 34);
            assert(fs =~= row_fields(*self).subrange(0, 34));
        }
        Ghost(fs)
    }

    /// The last 7 columns of the row: the probe outcomes.
    #[verifier::rlimit(100)]
    fn row_end(&self, s: &mut String, Ghost(fs0): Ghost<Seq<Seq<char>>>) -> (fs1: Ghost<Seq<Seq<char>>>)
        requires
            row_printable(*self),
            fs0 == row_fields(*self).subrange(0, 34),
            old(s)@ == joined(fs0),
        ensures
            fs1@ == row_fields(*self),
            final(s)@ == joined(fs1@),
    {
        let ghost mut fs = fs0;
        let (reduced, full, score_delta, reduced_effect, full_effect, bound_changed) = self.row_outcomes();
        {
            let f = reduced.as_str();
            push_field(s, f, Ghost(fs));
            proof {
                fs = fs.push(f@);
            }
        }
        {
            let f = full.as_str();
            push_field(s, f, Ghost(fs));
            proof {
                fs = fs.push(f@);
            }
        }
        {
            let f = score_delta.as_str();
            push_field(s, f, Ghost(fs));
            proof {
                fs = fs.push(f@);
            }
        }
        {
            let f = reduced_effect.as_str();
            push_field(s, f, Ghost(fs));
            proof {
                fs = fs.push(f@);
            }
        }
        {
            let f = full_effect.as_str();
            push_field(s, f, Ghost(fs));
            proof {
                fs = fs.push(f@);
            }
        }
        {
            let f = bound_changed;
            push_field(s, f, Ghost(fs));
            proof {
                fs = fs.push(f@);
            }
        }
        {
            let t = opt_field(self.sigma);
            let f = t.as_str();
            push_field(s, f, Ghost(fs));
            proof {
                fs = fs.push(f@);
            }
        }
        proof {
            assert(row_fields(*self).len() == 41);
            assert(fs.len() == 41);
            assert(fs =~= row_fields(*self));
        }
        Ghost(fs)
    }

    /// The record as one CSV row in header order.
    pub fn to_csv_row(&self) -> (s: String)
        requires
            row_printable(*self),
        ensures
            s@ == joined(row_fields(*self)),
    {
        let mut s = u64_text(CRITICALITY_SCHEMA_VERSION as u64);
        let ghost fs: Seq<Seq<char>> = seq![s@];
        proof {
            assert(fs =~= row_fields(*self).subrange(0, 1));
        }
        let fs = self.row_start(&mut s, Ghost(fs));
        let fs = self.row_middle(&mut s, fs);
        let fs = self.row_flags(&mut s, fs);
        let fs = self.row_end(&mut s, fs);
        s
    }
}

// ---------------------------------------------------------------- row width

/// The column names of the records, in order.
pub open spec fn header_names() -> Seq<Seq<char>> {
    seq![
        "schema_version"@,
        "decision_kind"@,
        "pid"@,
        "game_id"@,
        "search_id"@,
        "root_depth"@,
        "ply"@,
        "node_hash"@,
        "side_to_move"@,
        "move_uci"@,
        "from"@,
        "to"@,
        "piece_type"@,
        "depth"@,
        "move_index"@,
        "base_reduction"@,
        "final_reduction"@,
        "new_depth"@,
        "history_score"@,
        "static_eval"@,
        "has_prev_static_eval"@,
        "prev_static_eval"@,
        "static_eval_delta"@,
        "alpha"@,
        "beta"@,
        "futility_margin"@,
        "static_alpha_margin"@,
        "is_pv"@,
        "is_cut_node"@,
        "improving"@,
        "is_killer"@,
        "is_counter"@,
        "tt_move_agreement"@,
        "label_source"@,
        "reduced_score"@,
        "full_score"@,
        "score_delta_cp"@,
        "reduced_effect"@,
        "full_effect"@,
        "bound_changed"@,
        "sigma"@,
    ]
}

#[verifier::rlimit(50)]
proof fn lemma_header_prefix_0()
    ensures
        joined_upto(header_names(), 10) == "schema_version,decision_kind,pid,game_id,search_id,root_depth,ply,node_hash,side_to_move,move_uci"@,
{
    let ns = header_names();
    reveal_strlit(",");
    reveal_strlit("schema_version");
    reveal_strlit("decision_kind");
    reveal_strlit("pid");
    reveal_strlit("game_id");
    reveal_strlit("search_id");
    reveal_strlit("root_depth");
    reveal_strlit("ply");
    reveal_strlit("node_hash");
    reveal_strlit("side_to_move");
    reveal_strlit("move_uci");
    reveal_strlit("schema_version");
    assert(joined_upto(ns, 1) == "schema_version"@);
    reveal_strlit("schema_version,decision_kind");
    assert(joined_upto(ns, 2) =~= "schema_version,decision_kind"@);
    reveal_strlit("schema_version,decision_kind,pid");
    assert(joined_upto(ns, 3) =~= "schema_version,decision_kind,pid"@);
    reveal_strlit("schema_version,decision_kind,pid,game_id");
    assert(joined_upto(ns, 4) =~= "schema_version,decision_kind,pid,game_id"@);
    reveal_strlit("schema_version,decision_kind,pid,game_id,search_id");
    assert(joined_upto(ns, 5) =~= "schema_version,decision_kind,pid,game_id,search_id"@);
    reveal_strlit("schema_version,decision_kind,pid,game_id,search_id,root_depth");
    assert(joined_upto(ns, 6) =~= "schema_version,decision_kind,pid,game_id,search_id,root_depth"@);
    reveal_strlit("schema_version,decision_kind,pid,game_id,search_id,root_depth,ply");
    assert(joined_upto(ns, 7) =~= "schema_version,decision_kind,pid,game_id,search_id,root_depth,ply"@);
    reveal_strlit("schema_version,decision_kind,pid,game_id,search_id,root_depth,ply,node_hash");
    assert(joined_upto(ns, 8) =~= "schema_version,decision_kind,pid,game_id,search_id,root_depth,ply,node_hash"@);
    reveal_strlit("schema_version,decision_kind,pid,game_id,search_id,root_depth,ply,node_hash,side_to_move");
    assert(joined_upto(ns, 9) =~= "schema_version,decision_kind,pid,game_id,search_id,root_depth,ply,node_hash,side_to_move"@);
    reveal_strlit("schema_version,decision_kind,pid,game_id,search_id,root_depth,ply,node_hash,side_to_move,move_uci");
    assert(joined_upto(ns, 10) =~= "schema_version,decision_kind,pid,game_id,search_id,root_depth,ply,node_hash,side_to_move,move_uci"@);
}

#[verifier::rlimit(50)]
proof fn lemma_header_prefix_1()
    ensures
        joined_upto(header_names(), 20) == "schema_version,decision_kind,pid,game_id,search_id,root_depth,ply,node_hash,side_to_move,move_uci,from,to,piece_type,depth,move_index,base_reduction,final_reduction,new_depth,history_score,static_eval"@,
{
    lemma_header_prefix_0();
    let ns = header_names();
    reveal_strlit(",");
    reveal_strlit("from");
    reveal_strlit("to");
    reveal_strlit("piece_type");
    reveal_strlit("depth");
    reveal_strlit("move_index");
    reveal_strlit("base_reduction");
    reveal_strlit("final_reduction");
    reveal_strlit("new_depth");
    reveal_strlit("history_score");
    reveal_strlit("static_eval");
    reveal_strlit("schema_version,decision_kind,pid,game_id,search_id,root_depth,ply,node_hash,side_to_move,move_uci");
    reveal_strlit("schema_version,decision_kind,pid,game_id,search_id,root_depth,ply,node_hash,side_to_move,move_uci,from");
    assert(joined_upto(ns, 11) =~= "schema_version,decision_kind,pid,game_id,search_id,root_depth,ply,node_hash,side_to_move,move_uci,from"@);
    reveal_strlit("schema_version,decision_kind,pid,game_id,search_id,root_depth,ply,node_hash,side_to_move,move_uci,from,to");
    assert(joined_upto(ns, 12) =~= "schema_version,decision_kind,pid,game_id,search_id,root_depth,ply,node_hash,side_to_move,move_uci,from,to"@);
    reveal_strlit("schema_version,decision_kind,pid,game_id,search_id,root_depth,ply,node_hash,side_to_move,move_uci,from,to,piece_type");
    assert(joined_upto(ns, 13) =~= "schema_version,decision_kind,pid,game_id,search_id,root_depth,ply,node_hash,side_to_move,move_uci,from,to,piece_type"@);
    reveal_strlit("schema_version,decision_kind,pid,game_id,search_id,root_depth,ply,node_hash,side_to_move,move_uci,from,to,piece_type,depth");
    assert(joined_upto(ns, 14) =~= "schema_version,decision_kind,pid,game_id,search_id,root_depth,ply,node_hash,side_to_move,move_uci,from,to,piece_type,depth"@);
    reveal_strlit("schema_version,decision_kind,pid,game_id,search_id,root_depth,ply,node_hash,side_to_move,move_uci,from,to,piece_type,depth,move_index");
    assert(joined_upto(ns, 15) =~= "schema_version,decision_kind,pid,game_id,search_id,root_depth,ply,node_hash,side_to_move,move_uci,from,to,piece_type,depth,move_index"@);
    reveal_strlit("schema_version,decision_kind,pid,game_id,search_id,root_depth,ply,node_hash,side_to_move,move_uci,from,to,piece_type,depth,move_index,base_reduction");
    assert(joined_upto(ns, 16) =~= "schema_version,decision_kind,pid,game_id,search_id,root_depth,ply,node_hash,side_to_move,move_uci,from,to,piece_type,depth,move_index,base_reduction"@);
    reveal_strlit("schema_version,decision_kind,pid,game_id,search_id,root_depth,ply,node_hash,side_to_move,move_uci,from,to,piece_type,depth,move_index,base_reduction,final_reduction");
    assert(joined_upto(ns, 17) =~= "schema_version,decision_kind,pid,game_id,search_id,root_depth,ply,node_hash,side_to_move,move_uci,from,to,piece_type,depth,move_index,base_reduction,final_reduction"@);
    reveal_strlit("schema_version,decision_kind,pid,game_id,search_id,root_depth,ply,node_hash,side_to_move,move_uci,from,to,piece_type,depth,move_index,base_reduction,final_reduction,new_depth");
    assert(joined_upto(ns, 18) =~= "schema_version,decision_kind,pid,game_id,search_id,root_depth,ply,node_hash,side_to_move,move_uci,from,to,piece_type,depth,move_index,base_reduction,final_reduction,new_depth"@);
    reveal_strlit("schema_version,decision_kind,pid,game_id,search_id,root_depth,ply,node_hash,side_to_move,move_uci,from,to,piece_type,depth,move_index,base_reduction,final_reduction,new_depth,history_score");
    assert(joined_upto(ns, 19) =~= "schema_version,decision_kind,pid,game_id,search_id,root_depth,ply,node_hash,side_to_move,move_uci,from,to,piece_type,depth,move_index,base_reduction,final_reduction,new_depth,history_score"@);
    reveal_strlit("schema_version,decision_kind,pid,game_id,search_id,root_depth,ply,node_hash,side_to_move,move_uci,from,to,piece_type,depth,move_index,base_reduction,final_reduction,new_depth,history_score,static_eval");
    assert(joined_upto(ns, 20) =~= "schema_version,decision_kind,pid,game_id,search_id,root_depth,ply,node_hash,side_to_move,move_uci,from,to,piece_type,depth,move_index,base_reduction,final_reduction,new_depth,history_score,static_eval"@);
}

#[verifier::rlimit(50)]
proof fn lemma_header_prefix_2()
    ensures
        joined_upto(header_names(), 30) == "schema_version,decision_kind,pid,game_id,search_id,root_depth,ply,node_hash,side_to_move,move_uci,from,to,piece_type,depth,move_index,base_reduction,final_reduction,new_depth,history_score,static_eval,has_prev_static_eval,prev_static_eval,static_eval_delta,alpha,beta,futility_margin,static_alpha_margin,is_pv,is_cut_node,improving"@,
{
    lemma_header_prefix_1();
    let ns = header_names();
    reveal_strlit(",");
    reveal_strlit("has_prev_static_eval");
    reveal_strlit("prev_static_eval");
    reveal_strlit("static_eval_delta");
    reveal_strlit("alpha");
    reveal_strlit("beta");
    reveal_strlit("futility_margin");
    reveal_strlit("static_alpha_margin");
    reveal_strlit("is_pv");
    reveal_strlit("is_cut_node");
    reveal_strlit("improving");
    reveal_strlit("schema_version,decision_kind,pid,game_id,search_id,root_depth,ply,node_hash,side_to_move,move_uci,from,to,piece_type,depth,move_index,base_reduction,final_reduction,new_depth,history_score,static_eval");
    reveal_strlit("schema_version,decision_kind,pid,game_id,search_id,root_depth,ply,node_hash,side_to_move,move_uci,from,to,piece_type,depth,move_index,base_reduction,final_reduction,new_depth,history_score,static_eval,has_prev_static_eval");
    assert(joined_upto(ns, 21) =~= "schema_version,decision_kind,pid,game_id,search_id,root_depth,ply,node_hash,side_to_move,move_uci,from,to,piece_type,depth,move_index,base_reduction,final_reduction,new_depth,history_score,static_eval,has_prev_static_eval"@);
    reveal_strlit("schema_version,decision_kind,pid,game_id,search_id,root_depth,ply,node_hash,side_to_move,move_uci,from,to,piece_type,depth,move_index,base_reduction,final_reduction,new_depth,history_score,static_eval,has_prev_static_eval,prev_static_eval");
    assert(joined_upto(ns, 22) =~= "schema_version,decision_kind,pid,game_id,search_id,root_depth,ply,node_hash,side_to_move,move_uci,from,to,piece_type,depth,move_index,base_reduction,final_reduction,new_depth,history_score,static_eval,has_prev_static_eval,prev_static_eval"@);
    reveal_strlit("schema_version,decision_kind,pid,game_id,search_id,root_depth,ply,node_hash,side_to_move,move_uci,from,to,piece_type,depth,move_index,base_reduction,final_reduction,new_depth,history_score,static_eval,has_prev_static_eval,prev_static_eval,static_eval_delta");
    assert(joined_upto(ns, 23) =~= "schema_version,decision_kind,pid,game_id,search_id,root_depth,ply,node_hash,side_to_move,move_uci,from,to,piece_type,depth,move_index,base_reduction,final_reduction,new_depth,history_score,static_eval,has_prev_static_eval,prev_static_eval,static_eval_delta"@);
    reveal_strlit("schema_version,decision_kind,pid,game_id,search_id,root_depth,ply,node_hash,side_to_move,move_uci,from,to,piece_type,depth,move_index,base_reduction,final_reduction,new_depth,history_score,static_eval,has_prev_static_eval,prev_static_eval,static_eval_delta,alpha");
    assert(joined_upto(ns, 24) =~= "schema_version,decision_kind,pid,game_id,search_id,root_depth,ply,node_hash,side_to_move,move_uci,from,to,piece_type,depth,move_index,base_reduction,final_reduction,new_depth,history_score,static_eval,has_prev_static_eval,prev_static_eval,static_eval_delta,alpha"@);
    reveal_strlit("schema_version,decision_kind,pid,game_id,search_id,root_depth,ply,node_hash,side_to_move,move_uci,from,to,piece_type,depth,move_index,base_reduction,final_reduction,new_depth,history_score,static_eval,has_prev_static_eval,prev_static_eval,static_eval_delta,alpha,beta");
    assert(joined_upto(ns, 25) =~= "schema_version,decision_kind,pid,game_id,search_id,root_depth,ply,node_hash,side_to_move,move_uci,from,to,piece_type,depth,move_index,base_reduction,final_reduction,new_depth,history_score,static_eval,has_prev_static_eval,prev_static_eval,static_eval_delta,alpha,beta"@);
    reveal_strlit("schema_version,decision_kind,pid,game_id,search_id,root_depth,ply,node_hash,side_to_move,move_uci,from,to,piece_type,depth,move_index,base_reduction,final_reduction,new_depth,history_score,static_eval,has_prev_static_eval,prev_static_eval,static_eval_delta,alpha,beta,futility_margin");
    assert(joined_upto(ns, 26) =~= "schema_version,decision_kind,pid,game_id,search_id,root_depth,ply,node_hash,side_to_move,move_uci,from,to,piece_type,depth,move_index,base_reduction,final_reduction,new_depth,history_score,static_eval,has_prev_static_eval,prev_static_eval,static_eval_delta,alpha,beta,futility_margin"@);
    reveal_strlit("schema_version,decision_kind,pid,game_id,search_id,root_depth,ply,node_hash,side_to_move,move_uci,from,to,piece_type,depth,move_index,base_reduction,final_reduction,new_depth,history_score,static_eval,has_prev_static_eval,prev_static_eval,static_eval_delta,alpha,beta,futility_margin,static_alpha_margin");
    assert(joined_upto(ns, 27) =~= "schema_version,decision_kind,pid,game_id,search_id,root_depth,ply,node_hash,side_to_move,move_uci,from,to,piece_type,depth,move_index,base_reduction,final_reduction,new_depth,history_score,static_eval,has_prev_static_eval,prev_static_eval,static_eval_delta,alpha,beta,futility_margin,static_alpha_margin"@);
    reveal_strlit("schema_version,decision_kind,pid,game_id,search_id,root_depth,ply,node_hash,side_to_move,move_uci,from,to,piece_type,depth,move_index,base_reduction,final_reduction,new_depth,history_score,static_eval,has_prev_static_eval,prev_static_eval,static_eval_delta,alpha,beta,futility_margin,static_alpha_margin,is_pv");
    assert(joined_upto(ns, 28) =~= "schema_version,decision_kind,pid,game_id,search_id,root_depth,ply,node_hash,side_to_move,move_uci,from,to,piece_type,depth,move_index,base_reduction,final_reduction,new_depth,history_score,static_eval,has_prev_static_eval,prev_static_eval,static_eval_delta,alpha,beta,futility_margin,static_alpha_margin,is_pv"@);
    reveal_strlit("schema_version,decision_kind,pid,game_id,search_id,root_depth,ply,node_hash,side_to_move,move_uci,from,to,piece_type,depth,move_index,base_reduction,final_reduction,new_depth,history_score,static_eval,has_prev_static_eval,prev_static_eval,static_eval_delta,alpha,beta,futility_margin,static_alpha_margin,is_pv,is_cut_node");
    assert(joined_upto(ns, 29) =~= "schema_version,decision_kind,pid,game_id,search_id,root_depth,ply,node_hash,side_to_move,move_uci,from,to,piece_type,depth,move_index,base_reduction,final_reduction,new_depth,history_score,static_eval,has_prev_static_eval,prev_static_eval,static_eval_delta,alpha,beta,futility_margin,static_alpha_margin,is_pv,is_cut_node"@);
    reveal_strlit("schema_version,decision_kind,pid,game_id,search_id,root_depth,ply,node_hash,side_to_move,move_uci,from,to,piece_type,depth,move_index,base_reduction,final_reduction,new_depth,history_score,static_eval,has_prev_static_eval,prev_static_eval,static_eval_delta,alpha,beta,futility_margin,static_alpha_margin,is_pv,is_cut_node,improving");
    assert(joined_upto(ns, 30) =~= "schema_version,decision_kind,pid,game_id,search_id,root_depth,ply,node_hash,side_to_move,move_uci,from,to,piece_type,depth,move_index,base_reduction,final_reduction,new_depth,history_score,static_eval,has_prev_static_eval,prev_static_eval,static_eval_delta,alpha,beta,futility_margin,static_alpha_margin,is_pv,is_cut_node,improving"@);
}

#[verifier::rlimit(50)]
proof fn lemma_header_prefix_3()
    ensures
        joined_upto(header_names(), 40) == "schema_version,decision_kind,pid,game_id,search_id,root_depth,ply,node_hash,side_to_move,move_uci,from,to,piece_type,depth,move_index,base_reduction,final_reduction,new_depth,history_score,static_eval,has_prev_static_eval,prev_static_eval,static_eval_delta,alpha,beta,futility_margin,static_alpha_margin,is_pv,is_cut_node,improving,is_killer,is_counter,tt_move_agreement,label_source,reduced_score,full_score,score_delta_cp,reduced_effect,full_effect,bound_changed"@,
{
    lemma_header_prefix_2();
    let ns = header_names();
    reveal_strlit(",");
    reveal_strlit("is_killer");
    reveal_strlit("is_counter");
    reveal_strlit("tt_move_agreement");
    reveal_strlit("label_source");
    reveal_strlit("reduced_score");
    reveal_strlit("full_score");
    reveal_strlit("score_delta_cp");
    reveal_strlit("reduced_effect");
    reveal_strlit("full_effect");
    reveal_strlit("bound_changed");
    reveal_strlit("schema_version,decision_kind,pid,game_id,search_id,root_depth,ply,node_hash,side_to_move,move_uci,from,to,piece_type,depth,move_index,base_reduction,final_reduction,new_depth,history_score,static_eval,has_prev_static_eval,prev_static_eval,static_eval_delta,alpha,beta,futility_margin,static_alpha_margin,is_pv,is_cut_node,improving");
    reveal_strlit("schema_version,decision_kind,pid,game_id,search_id,root_depth,ply,node_hash,side_to_move,move_uci,from,to,piece_type,depth,move_index,base_reduction,final_reduction,new_depth,history_score,static_eval,has_prev_static_eval,prev_static_eval,static_eval_delta,alpha,beta,futility_margin,static_alpha_margin,is_pv,is_cut_node,improving,is_killer");
    assert(joined_upto(ns, 31) =~= "schema_version,decision_kind,pid,game_id,search_id,root_depth,ply,node_hash,side_to_move,move_uci,from,to,piece_type,depth,move_index,base_reduction,final_reduction,new_depth,history_score,static_eval,has_prev_static_eval,prev_static_eval,static_eval_delta,alpha,beta,futility_margin,static_alpha_margin,is_pv,is_cut_node,improving,is_killer"@);
    reveal_strlit("schema_version,decision_kind,pid,game_id,search_id,root_depth,ply,node_hash,side_to_move,move_uci,from,to,piece_type,depth,move_index,base_reduction,final_reduction,new_depth,history_score,static_eval,has_prev_static_eval,prev_static_eval,static_eval_delta,alpha,beta,futility_margin,static_alpha_margin,is_pv,is_cut_node,improving,is_killer,is_counter");
    assert(joined_upto(ns, 32) =~= "schema_version,decision_kind,pid,game_id,search_id,root_depth,ply,node_hash,side_to_move,move_uci,from,to,piece_type,depth,move_index,base_reduction,final_reduction,new_depth,history_score,static_eval,has_prev_static_eval,prev_static_eval,static_eval_delta,alpha,beta,futility_margin,static_alpha_margin,is_pv,is_cut_node,improving,is_killer,is_counter"@);
    reveal_strlit("schema_version,decision_kind,pid,game_id,search_id,root_depth,ply,node_hash,side_to_move,move_uci,from,to,piece_type,depth,move_index,base_reduction,final_reduction,new_depth,history_score,static_eval,has_prev_static_eval,prev_static_eval,static_eval_delta,alpha,beta,futility_margin,static_alpha_margin,is_pv,is_cut_node,improving,is_killer,is_counter,tt_move_agreement");
    assert(joined_upto(ns, 33) =~= "schema_version,decision_kind,pid,game_id,search_id,root_depth,ply,node_hash,side_to_move,move_uci,from,to,piece_type,depth,move_index,base_reduction,final_reduction,new_depth,history_score,static_eval,has_prev_static_eval,prev_static_eval,static_eval_delta,alpha,beta,futility_margin,static_alpha_margin,is_pv,is_cut_node,improving,is_killer,is_counter,tt_move_agreement"@);
    reveal_strlit("schema_version,decision_kind,pid,game_id,search_id,root_depth,ply,node_hash,side_to_move,move_uci,from,to,piece_type,depth,move_index,base_reduction,final_reduction,new_depth,history_score,static_eval,has_prev_static_eval,prev_static_eval,static_eval_delta,alpha,beta,futility_margin,static_alpha_margin,is_pv,is_cut_node,improving,is_killer,is_counter,tt_move_agreement,label_source");
    assert(joined_upto(ns, 34) =~= "schema_version,decision_kind,pid,game_id,search_id,root_depth,ply,node_hash,side_to_move,move_uci,from,to,piece_type,depth,move_index,base_reduction,final_reduction,new_depth,history_score,static_eval,has_prev_static_eval,prev_static_eval,static_eval_delta,alpha,beta,futility_margin,static_alpha_margin,is_pv,is_cut_node,improving,is_killer,is_counter,tt_move_agreement,label_source"@);
    reveal_strlit("schema_version,decision_kind,pid,game_id,search_id,root_depth,ply,node_hash,side_to_move,move_uci,from,to,piece_type,depth,move_index,base_reduction,final_reduction,new_depth,history_score,static_eval,has_prev_static_eval,prev_static_eval,static_eval_delta,alpha,beta,futility_margin,static_alpha_margin,is_pv,is_cut_node,improving,is_killer,is_counter,tt_move_agreement,label_source,reduced_score");
    assert(joined_upto(ns, 35) =~= "schema_version,decision_kind,pid,game_id,search_id,root_depth,ply,node_hash,side_to_move,move_uci,from,to,piece_type,depth,move_index,base_reduction,final_reduction,new_depth,history_score,static_eval,has_prev_static_eval,prev_static_eval,static_eval_delta,alpha,beta,futility_margin,static_alpha_margin,is_pv,is_cut_node,improving,is_killer,is_counter,tt_move_agreement,label_source,reduced_score"@);
    reveal_strlit("schema_version,decision_kind,pid,game_id,search_id,root_depth,ply,node_hash,side_to_move,move_uci,from,to,piece_type,depth,move_index,base_reduction,final_reduction,new_depth,history_score,static_eval,has_prev_static_eval,prev_static_eval,static_eval_delta,alpha,beta,futility_margin,static_alpha_margin,is_pv,is_cut_node,improving,is_killer,is_counter,tt_move_agreement,label_source,reduced_score,full_score");
    assert(joined_upto(ns, 36) =~= "schema_version,decision_kind,pid,game_id,search_id,root_depth,ply,node_hash,side_to_move,move_uci,from,to,piece_type,depth,move_index,base_reduction,final_reduction,new_depth,history_score,static_eval,has_prev_static_eval,prev_static_eval,static_eval_delta,alpha,beta,futility_margin,static_alpha_margin,is_pv,is_cut_node,improving,is_killer,is_counter,tt_move_agreement,label_source,reduced_score,full_score"@);
    reveal_strlit("schema_version,decision_kind,pid,game_id,search_id,root_depth,ply,node_hash,side_to_move,move_uci,from,to,piece_type,depth,move_index,base_reduction,final_reduction,new_depth,history_score,static_eval,has_prev_static_eval,prev_static_eval,static_eval_delta,alpha,beta,futility_margin,static_alpha_margin,is_pv,is_cut_node,improving,is_killer,is_counter,tt_move_agreement,label_source,reduced_score,full_score,score_delta_cp");
    assert(joined_upto(ns, 37) =~= "schema_version,decision_kind,pid,game_id,search_id,root_depth,ply,node_hash,side_to_move,move_uci,from,to,piece_type,depth,move_index,base_reduction,final_reduction,new_depth,history_score,static_eval,has_prev_static_eval,prev_static_eval,static_eval_delta,alpha,beta,futility_margin,static_alpha_margin,is_pv,is_cut_node,improving,is_killer,is_counter,tt_move_agreement,label_source,reduced_score,full_score,score_delta_cp"@);
    reveal_strlit("schema_version,decision_kind,pid,game_id,search_id,root_depth,ply,node_hash,side_to_move,move_uci,from,to,piece_type,depth,move_index,base_reduction,final_reduction,new_depth,history_score,static_eval,has_prev_static_eval,prev_static_eval,static_eval_delta,alpha,beta,futility_margin,static_alpha_margin,is_pv,is_cut_node,improving,is_killer,is_counter,tt_move_agreement,label_source,reduced_score,full_score,score_delta_cp,reduced_effect");
    assert(joined_upto(ns, 38) =~= "schema_version,decision_kind,pid,game_id,search_id,root_depth,ply,node_hash,side_to_move,move_uci,from,to,piece_type,depth,move_index,base_reduction,final_reduction,new_depth,history_score,static_eval,has_prev_static_eval,prev_static_eval,static_eval_delta,alpha,beta,futility_margin,static_alpha_margin,is_pv,is_cut_node,improving,is_killer,is_counter,tt_move_agreement,label_source,reduced_score,full_score,score_delta_cp,reduced_effect"@);
    reveal_strlit("schema_version,decision_kind,pid,game_id,search_id,root_depth,ply,node_hash,side_to_move,move_uci,from,to,piece_type,depth,move_index,base_reduction,final_reduction,new_depth,history_score,static_eval,has_prev_static_eval,prev_static_eval,static_eval_delta,alpha,beta,futility_margin,static_alpha_margin,is_pv,is_cut_node,improving,is_killer,is_counter,tt_move_agreement,label_source,reduced_score,full_score,score_delta_cp,reduced_effect,full_effect");
    assert(joined_upto(ns, 39) =~= "schema_version,decision_kind,pid,game_id,search_id,root_depth,ply,node_hash,side_to_move,move_uci,from,to,piece_type,depth,move_index,base_reduction,final_reduction,new_depth,history_score,static_eval,has_prev_static_eval,prev_static_eval,static_eval_delta,alpha,beta,futility_margin,static_alpha_margin,is_pv,is_cut_node,improving,is_killer,is_counter,tt_move_agreement,label_source,reduced_score,full_score,score_delta_cp,reduced_effect,full_effect"@);
    reveal_strlit("schema_version,decision_kind,pid,game_id,search_id,root_depth,ply,node_hash,side_to_move,move_uci,from,to,piece_type,depth,move_index,base_reduction,final_reduction,new_depth,history_score,static_eval,has_prev_static_eval,prev_static_eval,static_eval_delta,alpha,beta,futility_margin,static_alpha_margin,is_pv,is_cut_node,improving,is_killer,is_counter,tt_move_agreement,label_source,reduced_score,full_score,score_delta_cp,reduced_effect,full_effect,bound_changed");
    assert(joined_upto(ns, 40) =~= "schema_version,decision_kind,pid,game_id,search_id,root_depth,ply,node_hash,side_to_move,move_uci,from,to,piece_type,depth,move_index,base_reduction,final_reduction,new_depth,history_score,static_eval,has_prev_static_eval,prev_static_eval,static_eval_delta,alpha,beta,futility_margin,static_alpha_margin,is_pv,is_cut_node,improving,is_killer,is_counter,tt_move_agreement,label_source,reduced_score,full_score,score_delta_cp,reduced_effect,full_effect,bound_changed"@);
}

#[verifier::rlimit(50)]
proof fn lemma_header_prefix_4()
    ensures
        joined_upto(header_names(), 41) == "schema_version,decision_kind,pid,game_id,search_id,root_depth,ply,node_hash,side_to_move,move_uci,from,to,piece_type,depth,move_index,base_reduction,final_reduction,new_depth,history_score,static_eval,has_prev_static_eval,prev_static_eval,static_eval_delta,alpha,beta,futility_margin,static_alpha_margin,is_pv,is_cut_node,improving,is_killer,is_counter,tt_move_agreement,label_source,reduced_score,full_score,score_delta_cp,reduced_effect,full_effect,bound_changed,sigma"@,
{
    lemma_header_prefix_3();
    let ns = header_names();
    reveal_strlit(",");
    reveal_strlit("sigma");
    reveal_strlit("schema_version,decision_kind,pid,game_id,search_id,root_depth,ply,node_hash,side_to_move,move_uci,from,to,piece_type,depth,move_index,base_reduction,final_reduction,new_depth,history_score,static_eval,has_prev_static_eval,prev_static_eval,static_eval_delta,alpha,beta,futility_margin,static_alpha_margin,is_pv,is_cut_node,improving,is_killer,is_counter,tt_move_agreement,label_source,reduced_score,full_score,score_delta_cp,reduced_effect,full_effect,bound_changed");
    reveal_strlit("schema_version,decision_kind,pid,game_id,search_id,root_depth,ply,node_hash,side_to_move,move_uci,from,to,piece_type,depth,move_index,base_reduction,final_reduction,new_depth,history_score,static_eval,has_prev_static_eval,prev_static_eval,static_eval_delta,alpha,beta,futility_margin,static_alpha_margin,is_pv,is_cut_node,improving,is_killer,is_counter,tt_move_agreement,label_source,reduced_score,full_score,score_delta_cp,reduced_effect,full_effect,bound_changed,sigma");
    assert(joined_upto(ns, 41) =~= "schema_version,decision_kind,pid,game_id,search_id,root_depth,ply,node_hash,side_to_move,move_uci,from,to,piece_type,depth,move_index,base_reduction,final_reduction,new_depth,history_score,static_eval,has_prev_static_eval,prev_static_eval,static_eval_delta,alpha,beta,futility_margin,static_alpha_margin,is_pv,is_cut_node,improving,is_killer,is_counter,tt_move_agreement,label_source,reduced_score,full_score,score_delta_cp,reduced_effect,full_effect,bound_changed,sigma"@);
}

proof fn lemma_header_is_joined_names()
    ensures
        header_text() == joined(header_names()),
{
    lemma_header_prefix_4();
    reveal_strlit("schema_version,decision_kind,pid,game_id,search_id,root_depth,ply,node_hash,side_to_move,move_uci,from,to,piece_type,depth,move_index,base_reduction,final_reduction,new_depth,history_score,static_eval,has_prev_static_eval,prev_static_eval,static_eval_delta,alpha,beta,futility_margin,static_alpha_margin,is_pv,is_cut_node,improving,is_killer,is_counter,tt_move_agreement,label_source,reduced_score,full_score,score_delta_cp,reduced_effect,full_effect,bound_changed,sigma");
}

proof fn lemma_opt_text_comma_free(v: Option<i32>)
    ensures
        comma_free(opt_text(v)),
{
    if let Some(x) = v {
        lemma_signed_decimal_comma_free(x as int);
    }
}

proof fn lemma_move_uci_comma_free(m: Move)
    ensures
        comma_free(move_uci(m)),
{
    crate::types::lemma_move_bounds(m);
}

proof fn lemma_header_commas()
    ensures
        comma_count(header_text()) == 40,
{
    lemma_header_is_joined_names();
    let hs = header_names();
    reveal_strlit("schema_version");
    reveal_strlit("decision_kind");
    reveal_strlit("pid");
    reveal_strlit("game_id");
    reveal_strlit("search_id");
    reveal_strlit("root_depth");
    reveal_strlit("ply");
    reveal_strlit("node_hash");
    reveal_strlit("side_to_move");
    reveal_strlit("move_uci");
    reveal_strlit("from");
    reveal_strlit("to");
    reveal_strlit("piece_type");
    reveal_strlit("depth");
    reveal_strlit("move_index");
    reveal_strlit("base_reduction");
    reveal_strlit("final_reduction");
    reveal_strlit("new_depth");
    reveal_strlit("history_score");
    reveal_strlit("static_eval");
    reveal_strlit("has_prev_static_eval");
    reveal_strlit("prev_static_eval");
    reveal_strlit("static_eval_delta");
    reveal_strlit("alpha");
    reveal_strlit("beta");
    reveal_strlit("futility_margin");
    reveal_strlit("static_alpha_margin");
    reveal_strlit("is_pv");
    reveal_strlit("is_cut_node");
    reveal_strlit("improving");
    reveal_strlit("is_killer");
    reveal_strlit("is_counter");
    reveal_strlit("tt_move_agreement");
    reveal_strlit("label_source");
    reveal_strlit("reduced_score");
    reveal_strlit("full_score");
    reveal_strlit("score_delta_cp");
    reveal_strlit("reduced_effect");
    reveal_strlit("full_effect");
    reveal_strlit("bound_changed");
    reveal_strlit("sigma");
    assert forall|i: int| 0 <= i < 41 implies comma_free(#[trigger] hs[i]) by {}
    lemma_joined_commas(hs, 41);
}

#[verifier::rlimit(100)]
proof fn lemma_row_fields_comma_free(r: CriticalityRecord)
    ensures
        row_fields(r).len() == 41,
        forall|i: int| 0 <= i < 41 ==> comma_free(#[trigger] row_fields(r)[i]),
{
    let fs = row_fields(r);
    reveal_strlit("lmr");
    reveal_strlit("futility");
    reveal_strlit("white");
    reveal_strlit("black");
    reveal_strlit("1");
    reveal_strlit("0");
    reveal_strlit(".");
    reveal_strlit("none");
    reveal_strlit("alpha");
    reveal_strlit("cutoff");
    reveal_strlit("observed_research");
    reveal_strlit("counterfactual_probe");
    assert forall|i: int| 0 <= i < 41 implies comma_free(#[trigger] fs[i]) by {
        lemma_decimal_comma_free(CRITICALITY_SCHEMA_VERSION as nat);
        lemma_decimal_comma_free(r.pid as nat);
        lemma_decimal_comma_free(r.game_id as nat);
        lemma_decimal_comma_free(r.search_id as nat);
        lemma_signed_decimal_comma_free(r.root_depth as int);
        lemma_decimal_comma_free(r.ply as nat);
        lemma_decimal_comma_free(r.node_hash as nat);
        lemma_move_uci_comma_free(r.m);
        lemma_decimal_comma_free(r.from as nat);
        lemma_decimal_comma_free(r.to as nat);
        lemma_signed_decimal_comma_free(r.depth as int);
        lemma_decimal_comma_free(r.move_index as nat);
        lemma_signed_decimal_comma_free(r.base_reduction as int);
        lemma_signed_decimal_comma_free(r.final_reduction as int);
        lemma_signed_decimal_comma_free(r.new_depth as int);
        lemma_signed_decimal_comma_free(r.history_score as int);
        lemma_signed_decimal_comma_free(r.static_eval as int);
        lemma_opt_text_comma_free(r.prev_static_eval);
        if let Some(p) = r.prev_static_eval {
            lemma_signed_decimal_comma_free(r.static_eval - p);
        }
        lemma_signed_decimal_comma_free(r.alpha as int);
        lemma_signed_decimal_comma_free(r.beta as int);
        lemma_opt_text_comma_free(r.futility_margin);
        lemma_opt_text_comma_free(r.static_alpha_margin);
        lemma_opt_text_comma_free(r.reduced_score);
        lemma_opt_text_comma_free(r.full_score);
        if let (Some(a), Some(b)) = (r.reduced_score, r.full_score) {
            lemma_decimal_comma_free(
                (if b - a >= 0 {
                    b - a
                } else {
                    a - b
                }) as nat,
            );
        }
        lemma_opt_text_comma_free(r.sigma);
    }
}

/// Every row of a record has exactly as many fields as the header: both hold 40
/// commas.
pub proof fn lemma_record_row_matches_header_width(r: CriticalityRecord)
    ensures
        comma_count(joined(row_fields(r))) == comma_count(header_text()),
        comma_count(header_text()) == 40,
{
    lemma_header_commas();
    lemma_row_fields_comma_free(r);
    lemma_joined_commas(row_fields(r), 41);
}

// ---------------------------------------------------------------- sampling

/// The sampling hash of a search node and move: a mix of its inputs, then the
/// finalizer of splitmix64, reduced modulo 1000.
pub open spec fn sample_bucket(hash: u64, m: Move, depth: i32, ply: usize, search_id: u64) -> u32 {
    let x0 = hash ^ ((m as u64) << 17u64) ^ ((depth as u64) << 41u64) ^ ((ply as u64) << 53u64)
        ^ vstd::wrapping::u64_specs::wrapping_mul(search_id, 0x9E37_79B9_7F4A_7C15u64);
    let x1 = x0 ^ (x0 >> 30u64);
    let x2 = vstd::wrapping::u64_specs::wrapping_mul(x1, 0xBF58_476D_1CE4_E5B9u64);
    let x3 = x2 ^ (x2 >> 27u64);
    let x4 = vstd::wrapping::u64_specs::wrapping_mul(x3, 0x94D0_49BB_1331_11EBu64);
    let x5 = x4 ^ (x4 >> 31u64);
    (x5 % 1000) as u32
}

/// The bucket, 0 to 999, that decides whether a node is sampled.
pub fn criticality_sample_bucket(hash: u64, m: Move, depth: i32, ply: usize, search_id: u64) -> (b: u32)
    ensures
        b == sample_bucket(hash, m, depth, ply, search_id),
        b < 1000,
{
    let mut x = hash ^ ((m as u64) << 17) ^ ((depth as u64) << 41) ^ ((ply as u64) << 53)
        ^ search_id.wrapping_mul(0x9E37_79B9_7F4A_7C15);
    x = x ^ (x >> 30);
    x = x.wrapping_mul(0xBF58_476D_1CE4_E5B9);
    x = x ^ (x >> 27);
    x = x.wrapping_mul(0x94D0_49BB_1331_11EB);
    x = x ^ (x >> 31);
    (x % 1000) as u32
}

/// Whether a node is probed at a rate of `permille` per thousand: never at 0, always
/// from 1000 on, else when its bucket is below the rate.
pub fn should_probe(hash: u64, m: Move, depth: i32, ply: usize, search_id: u64, permille: u32) -> (r: bool)
    ensures
        r == (permille != 0 && (permille >= 1000 || sample_bucket(hash, m, depth, ply, search_id)
            < permille)),
{
    if permille == 0 {
        return false;
    }
    if permille >= 1000 {
        return true;
    }
    criticality_sample_bucket(hash, m, depth, ply, search_id) < permille
}

// ---------------------------------------------------------------- log chunks

/// The file name prefix of this process's log chunks: `criticality-<pid>-`.
pub open spec fn chunk_prefix(pid: u32) -> Seq<char> {
    "criticality-"@ + decimal(pid as nat) + "-"@
}

/// The chunk number a file name `<prefix><n>.csv` carries.
pub open spec fn chunk_number(name: Seq<char>, prefix: Seq<char>) -> Option<u64> {
    let n = name.len() as int;
    let p = prefix.len() as int;
    if n >= p + 4 && name.subrange(0, p) == prefix && name.subrange(n - 4, n) == seq![
        '.',
        'c',
        's',
        'v',
    ] {
        match parse_unsigned(name.subrange(p, n - 4), u64::MAX as int) {
            Some(v) => Some(v as u64),
            None => None,
        }
    } else {
        None
    }
}

/// The largest chunk number among the first `k` names.
pub open spec fn latest_chunk_upto(names: Seq<String>, prefix: Seq<char>, k: int) -> Option<u64>
    decreases k,
{
    if k <= 0 {
        None
    } else {
        let prev = latest_chunk_upto(names, prefix, k - 1);
        match chunk_number(names[k - 1]@, prefix) {
            Some(v) => match prev {
                Some(q) => Some(if q >= v {
                    q
                } else {
                    v
                }),
                None => Some(v),
            },
            None => prev,
        }
    }
}

fn chunk_number_of(name: &str, prefix: &Vec<char>) -> (r: Option<u64>)
    ensures
        r == chunk_number(name@, prefix@),
{
    let cs = crate::types::str_chars(name);
    let n = cs.len();
    let p = prefix.len();
    if n < 4 || n - 4 < p {
        return None;
    }
    let mut i: usize = 0;
    while i < p
        invariant
            p == prefix@.len(),
            n == cs@.len(),
            cs@ == name@,
            n >= p + 4,
            i <= p,
            forall|j: int| 0 <= j < i ==> cs@[j] == prefix@[j],
        decreases p - i,
    {
        if cs[i] != prefix[i] {
            proof {
                assert(name@.subrange(0, p as int)[i as int] != prefix@[i as int]);
            }
            return None;
        }
        i += 1;
    }
    proof {
        assert(name@.subrange(0, p as int) =~= prefix@);
    }
    if cs[n - 4] != '.' || cs[n - 3] != 'c' || cs[n - 2] != 's' || cs[n - 1] != 'v' {
        proof {
            let suffix = name@.subrange(n - 4, n as int);
            assert(suffix[0] == cs@[n - 4] && suffix[1] == cs@[n - 3] && suffix[2] == cs@[n - 2]
                && suffix[3] == cs@[n - 1]);
        }
        return None;
    }
    proof {
        assert(name@.subrange(n - 4, n as int) =~= seq!['.', 'c', 's', 'v']);
    }
    let mut mid = String::new();
    let mut k: usize = p;
    while k < n - 4
        invariant
            p <= k <= n - 4,
            n == cs@.len(),
            cs@ == name@,
            mid@ == name@.subrange(p as int, k as int),
        decreases n - 4 - k,
    {
        crate::types::push_char(&mut mid, cs[k]);
        proof {
            assert(mid@ =~= name@.subrange(p as int, k + 1));
        }
        k += 1;
    }
    match parse_u64(mid.as_str()) {
        Some(v) => Some(v),
        None => None,
    }
}

/// The largest chunk number among the log file names of process `pid`.
pub fn latest_chunk_index_of(names: &Vec<String>, pid: u32) -> (r: Option<u64>)
    ensures
        r == latest_chunk_upto(names@, chunk_prefix(pid), names@.len() as int),
{
    let mut prefix = String::new();
    push_text(&mut prefix, "criticality-");
    let digits = u64_text(pid as u64);
    push_text(&mut prefix, digits.as_str());
    push_text(&mut prefix, "-");
    let pchars = crate::types::str_chars(prefix.as_str());
    let mut latest: Option<u64> = None;
    let mut i: usize = 0;
    while i < names.len()
        invariant
            pchars@ == chunk_prefix(pid),
            i <= names@.len(),
            latest == latest_chunk_upto(names@, chunk_prefix(pid), i as int),
        decreases names.len() - i,
    {
        let found = chunk_number_of(names[i].as_str(), &pchars);
        match found {
            Some(index) => {
                latest = match latest {
                    Some(prev) => Some(if prev >= index {
                        prev
                    } else {
                        index
                    }),
                    None => Some(index),
                };
            },
            None => {},
        }
        i += 1;
    }
    latest
}

} // verus!
