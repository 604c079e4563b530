//! The graph of meanings: language varieties, expressions, and the
//! denotations that tie expressions to meanings.
//!
//! Two expressions share a meaning when each has a denotation of it. A lookup
//! starts from the expressions of one variety that have the text asked for,
//! goes to their meanings, and from there to the expressions that denote one
//! of those meanings in the wanted variety.

use vstd::prelude::*;

verus! {

/// A variety of a language. Its `uid` is the language's code of three
/// letters, a hyphen and three digits.
#[derive(Clone, Debug, PartialEq, Eq)]
pub struct LanguageVariety {
    pub id: i64,
    pub uid: String,
}

/// A word or phrase in one language variety.
#[derive(Clone, Debug, PartialEq, Eq)]
pub struct Expression {
    pub id: i64,
    pub variety: i64,
    pub text: String,
}

/// A scored tie between a meaning and an expression.
#[derive(Clone, Copy, Debug, PartialEq, Eq)]
pub struct Denotation {
    pub meaning: i64,
    pub provenance: i64,
    pub group: i64,
    pub quality: i64,
    pub expression: i64,
    pub variety: i64,
}

/// The three tables of the graph.
#[derive(Clone, Debug, PartialEq, Eq)]
pub struct MeaningGraph {
    pub varieties: Vec<LanguageVariety>,
    pub expressions: Vec<Expression>,
    pub denotations: Vec<Denotation>,
}

/// What a [`LanguageVariety`] says.
pub struct VarietyView {
    pub id: int,
    pub uid: Seq<char>,
}

/// What an [`Expression`] says.
pub struct ExpressionView {
    pub id: int,
    pub variety: int,
    pub text: Seq<char>,
}

/// What a [`Denotation`] says, as far as a lookup reads it.
pub struct DenotationView {
    pub meaning: int,
    pub quality: int,
    pub expression: int,
    pub variety: int,
}

/// What a [`MeaningGraph`] says.
pub struct GraphView {
    pub varieties: Seq<VarietyView>,
    pub expressions: Seq<ExpressionView>,
    pub denotations: Seq<DenotationView>,
}

impl View for LanguageVariety {
    type V = VarietyView;

    open spec fn view(&self) -> VarietyView {
        VarietyView { id: self.id as int, uid: self.uid@ }
    }
}

impl View for Expression {
    type V = ExpressionView;

    open spec fn view(&self) -> ExpressionView {
        ExpressionView { id: self.id as int, variety: self.variety as int, text: self.text@ }
    }
}

impl View for Denotation {
    type V = DenotationView;

    open spec fn view(&self) -> DenotationView {
        DenotationView {
            meaning: self.meaning as int,
            quality: self.quality as int,
            expression: self.expression as int,
            variety: self.variety as int,
        }
    }
}

impl View for MeaningGraph {
    type V = GraphView;

    open spec fn view(&self) -> GraphView {
        GraphView {
            varieties: self.varieties@.map_values(|v: LanguageVariety| v@),
            expressions: self.expressions@.map_values(|e: Expression| e@),
            denotations: self.denotations@.map_values(|d: Denotation| d@),
        }
    }
}

/// What is asked of the graph: the text, the `uid` of the variety it is in,
/// the `uid` of the variety in which answers are wanted, and whether the
/// expressions asked about are themselves left out of the answer.
pub struct Lookup {
    pub text: Seq<char>,
    pub uid_from: Seq<char>,
    pub uid_to: Seq<char>,
    pub leave_out_source: bool,
}

/// The `uid` of the first variety of a language.
pub open spec fn variety_uid(lang: Seq<char>) -> Seq<char> {
    lang + "-000"@
}

/// The lookup for renderings of `text` from one language into another.
pub open spec fn translation_lookup(text: Seq<char>, lang_from: Seq<char>, lang_to: Seq<char>)
    -> Lookup {
    Lookup {
        text,
        uid_from: variety_uid(lang_from),
        uid_to: variety_uid(lang_to),
        leave_out_source: false,
    }
}

/// The lookup for other words of the same language that share a meaning with
/// `text`.
pub open spec fn synonym_lookup(text: Seq<char>, lang: Seq<char>) -> Lookup {
    Lookup {
        text,
        uid_from: variety_uid(lang),
        uid_to: variety_uid(lang),
        leave_out_source: true,
    }
}

impl GraphView {
    /// The registry lists a variety with this id under this `uid`.
    pub open spec fn variety_named(self, variety: int, uid: Seq<char>) -> bool {
        exists|v: int|
            0 <= v < self.varieties.len() && (#[trigger] self.varieties[v]).id == variety
                && self.varieties[v].uid == uid
    }

    /// Expression `k` has the text asked for, in the variety asked about.
    pub open spec fn is_source(self, k: int, l: Lookup) -> bool {
        &&& 0 <= k < self.expressions.len()
        &&& self.expressions[k].text == l.text
        &&& self.variety_named(self.expressions[k].variety, l.uid_from)
    }

    /// `id` is the id of an expression that has the text asked for, in the
    /// variety asked about.
    pub open spec fn is_source_id(self, id: int, l: Lookup) -> bool {
        exists|k: int| #[trigger] self.is_source(k, l) && self.expressions[k].id == id
    }

    /// Denotation `i` ties the meaning `m` to an expression asked about.
    pub open spec fn denotes_source(self, i: int, m: int, l: Lookup) -> bool {
        &&& 0 <= i < self.denotations.len()
        &&& self.denotations[i].meaning == m
        &&& self.is_source_id(self.denotations[i].expression, l)
    }

    /// `m` is a meaning of an expression asked about.
    pub open spec fn is_source_meaning(self, m: int, l: Lookup) -> bool {
        exists|i: int| #[trigger] self.denotes_source(i, m, l)
    }

    /// Denotation `j` leads from a meaning of the text asked for into the
    /// wanted variety.
    pub open spec fn leads_to_target(self, j: int, l: Lookup) -> bool {
        &&& 0 <= j < self.denotations.len()
        &&& self.is_source_meaning(self.denotations[j].meaning, l)
        &&& self.variety_named(self.denotations[j].variety, l.uid_to)
    }

    /// Expression `k` may stand in the answer: always, unless the
    /// expressions asked about are left out, and it is one of them or has
    /// their text.
    pub open spec fn admitted(self, k: int, l: Lookup) -> bool {
        l.leave_out_source ==> !self.is_source_id(self.expressions[k].id, l)
            && self.expressions[k].text != l.text
    }

    /// Denotation `j` and expression `k` give a candidate: `j` leads into the
    /// wanted variety, `k` is the expression it denotes, and `k` is admitted.
    pub open spec fn is_candidate(self, j: int, k: int, l: Lookup) -> bool {
        &&& self.leads_to_target(j, l)
        &&& 0 <= k < self.expressions.len()
        &&& self.expressions[k].id == self.denotations[j].expression
        &&& self.admitted(k, l)
    }

    /// Some candidate has this text and this quality.
    #[verifier::opaque]
    pub open spec fn offers(self, text: Seq<char>, quality: int, l: Lookup) -> bool {
        exists|j: int, k: int|
            #[trigger] self.is_candidate(j, k, l) && self.expressions[k].text == text
                && self.denotations[j].quality == quality
    }

    /// There is no candidate at all.
    pub open spec fn offers_nothing(self, l: Lookup) -> bool {
        forall|j: int, k: int| !#[trigger] self.is_candidate(j, k, l)
    }
}

/// No two expressions of the graph have the same id.
pub open spec fn unique_expression_ids(g: GraphView) -> bool {
    forall|a: int, b: int|
        0 <= a < b < g.expressions.len() ==> (#[trigger] g.expressions[a]).id != (
        #[trigger] g.expressions[b]).id
}

/// Where ids are unique, an expression that has the id of an expression
/// asked about is that expression, and has its text: leaving out the ids
/// then leaves out nothing that leaving out the text would keep.
pub proof fn lemma_source_id_has_source_text(g: GraphView, k: int, l: Lookup)
    requires
        unique_expression_ids(g),
        0 <= k < g.expressions.len(),
        g.is_source_id(g.expressions[k].id, l),
    ensures
        g.is_source(k, l),
        g.expressions[k].text == l.text,
{
    let s = choose|s: int| #[trigger] g.is_source(s, l) && g.expressions[s].id == g.expressions[k].id;
    if s < k {
        assert(g.expressions[s].id != g.expressions[k].id);
    } else if k < s {
        assert(g.expressions[k].id != g.expressions[s].id);
    }
}

} // verus!
