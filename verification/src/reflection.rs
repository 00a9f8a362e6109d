//! Reflection on finished tasks: the record of one analysis, the error
//! patterns learnt from failures, and the optimisation report. Asking the
//! AI provider for the analysis, and the strategies it scores, are the
//! caller's part.
use vstd::prelude::*;
use crate::text::{concat3, owned};

verus! {

/// The request for an analysis of a successful task: its description and output.
pub open spec fn success_prompt(description: Seq<char>, output: Seq<char>) -> Seq<char> {
    "Analyze this successful task and suggest improvements:\nTask: "@ + description + "\nOutput: "@ + output
        + "\n\nSuggest:\n- Performance improvements\n- Quality enhancements\n- Efficiency gains\n\nReturn a JSON response with:\n- name (string)\n- description (string)\n- effectiveness (number 0-1)"@
}

pub fn success_analysis_prompt(description: &str, output: &str) -> (r: String)
    ensures
        r@ == success_prompt(description@, output@),
{
    let a = concat3("Analyze this successful task and suggest improvements:\nTask: ", description, "\nOutput: ");
    concat3(a.as_str(), output, "\n\nSuggest:\n- Performance improvements\n- Quality enhancements\n- Efficiency gains\n\nReturn a JSON response with:\n- name (string)\n- description (string)\n- effectiveness (number 0-1)")
}

/// The result of analysing one task.
#[derive(Debug)]
pub struct Reflection {
    pub task_id: String,
    pub success: bool,
    pub insights: Vec<String>,
    pub improvements: Vec<String>,
}

/// An error pattern learnt from a failed task.
#[derive(Debug)]
pub struct ErrorPattern {
    pub id: String,
    pub error_type: String,
    pub root_cause: String,
    pub prevention_strategy: String,
    pub count: usize,
}

pub struct PatternView {
    pub id: Seq<char>,
    pub error_type: Seq<char>,
    pub root_cause: Seq<char>,
    pub prevention_strategy: Seq<char>,
    pub count: usize,
}

impl View for ErrorPattern {
    type V = PatternView;

    open spec fn view(&self) -> PatternView {
        PatternView {
            id: self.id@,
            error_type: self.error_type@,
            root_cause: self.root_cause@,
            prevention_strategy: self.prevention_strategy@,
            count: self.count,
        }
    }
}

impl ErrorPattern {
    pub fn copy(&self) -> (r: Self)
        ensures
            r@ == self@,
    {
        ErrorPattern {
            id: self.id.clone(),
            error_type: self.error_type.clone(),
            root_cause: self.root_cause.clone(),
            prevention_strategy: self.prevention_strategy.clone(),
            count: self.count,
        }
    }
}

pub open spec fn pattern_views(s: Seq<ErrorPattern>) -> Seq<PatternView> {
    s.map_values(|p: ErrorPattern| p@)
}

/// How the learnt patterns and strategies add up.
#[derive(Debug)]
pub struct OptimizationReport {
    pub error_patterns_count: usize,
    pub strategies_count: usize,
    pub recommendations: Vec<String>,
}

/// The record of an analysis: the task and whether it succeeded, with no
/// insights or improvements yet.
pub fn reflection_for(task_id: String, success: bool) -> (r: Reflection)
    ensures
        r.task_id@ == task_id@,
        r.success == success,
        r.insights@.len() == 0,
        r.improvements@.len() == 0,
{
    Reflection { task_id, success, insights: Vec::new(), improvements: Vec::new() }
}

/// The pattern learnt from a failure: the one the provider's answer
/// described, else an `unknown` pattern seen once, under `fresh_id`.
pub open spec fn learnt_pattern(parsed: Option<PatternView>, fresh_id: Seq<char>) -> PatternView {
    match parsed {
        Some(p) => p,
        None => PatternView {
            id: fresh_id,
            error_type: "unknown"@,
            root_cause: "unknown"@,
            prevention_strategy: "unknown"@,
            count: 1,
        },
    }
}

pub fn pattern_or_unknown(parsed: Option<ErrorPattern>, fresh_id: String) -> (r: ErrorPattern)
    ensures
        r@ == learnt_pattern(
            match parsed {
                Some(p) => Some(p@),
                None => None,
            },
            fresh_id@,
        ),
{
    match parsed {
        Some(p) => p,
        None => ErrorPattern {
            id: fresh_id,
            error_type: owned("unknown"),
            root_cause: owned("unknown"),
            prevention_strategy: owned("unknown"),
            count: 1,
        },
    }
}

/// The error patterns learnt so far, in the order they were learnt, and the
/// number of strategies learnt.
#[derive(Debug)]
pub struct ReflectionLog {
    patterns: Vec<ErrorPattern>,
    strategies: usize,
}

impl ReflectionLog {
    pub closed spec fn patterns_spec(&self) -> Seq<PatternView> {
        pattern_views(self.patterns@)
    }

    pub closed spec fn strategies_spec(&self) -> nat {
        self.strategies as nat
    }

    pub fn new() -> (r: Self)
        ensures
            r.patterns_spec().len() == 0,
            r.strategies_spec() == 0,
    {
        let r = ReflectionLog { patterns: Vec::new(), strategies: 0 };
        assert(r.patterns_spec() =~= Seq::<PatternView>::empty());
        r
    }

    /// Keeps a learnt pattern.
    pub fn record_error_pattern(&mut self, p: ErrorPattern)
        ensures
            final(self).patterns_spec() == old(self).patterns_spec().push(p@),
            final(self).strategies_spec() == old(self).strategies_spec(),
    {
        let ghost pv = p@;
        self.patterns.push(p);
        assert(self.patterns_spec() =~= old(self).patterns_spec().push(pv));
    }

    /// Counts a learnt strategy; the count saturates.
    pub fn record_strategy(&mut self)
        ensures
            final(self).patterns_spec() == old(self).patterns_spec(),
            final(self).strategies_spec() == if old(self).strategies_spec() < usize::MAX {
                old(self).strategies_spec() + 1
            } else {
                old(self).strategies_spec()
            },
    {
        self.strategies = self.strategies.saturating_add(1);
    }

    pub fn get_error_patterns(&self) -> (r: Vec<ErrorPattern>)
        ensures
            pattern_views(r@) == self.patterns_spec(),
    {
        let mut out: Vec<ErrorPattern> = Vec::new();
        let mut i: usize = 0;
        while i < self.patterns.len()
            invariant
                i <= self.patterns@.len(),
                pattern_views(out@) == self.patterns_spec().take(i as int),
            decreases self.patterns@.len() - i,
        {
            let p = self.patterns[i].copy();
            assert(pattern_views(out@.push(p)) =~= pattern_views(out@).push(p@));
            assert(self.patterns_spec().take(i + 1) =~= self.patterns_spec().take(i as int).push(p@));
            out.push(p);
            i = i + 1;
        }
        assert(self.patterns_spec().take(i as int) =~= self.patterns_spec());
        out
    }

    pub fn clear_error_patterns(&mut self)
        ensures
            final(self).patterns_spec().len() == 0,
            final(self).strategies_spec() == old(self).strategies_spec(),
    {
        self.patterns = Vec::new();
        assert(self.patterns_spec() =~= Seq::<PatternView>::empty());
    }

    pub fn clear_strategies(&mut self)
        ensures
            final(self).patterns_spec() == old(self).patterns_spec(),
            final(self).strategies_spec() == 0,
    {
        self.strategies = 0;
    }

    /// The report on what was learnt: how many patterns and strategies, and
    /// the two standing recommendations.
    pub fn optimize(&self) -> (r: OptimizationReport)
        ensures
            r.error_patterns_count == self.patterns_spec().len(),
            r.strategies_count == self.strategies_spec(),
            crate::text::str_views(r.recommendations@) == seq![
                "Review error patterns for common issues"@,
                "Implement top strategies for improvement"@,
            ],
    {
        let recommendations = vec![
            owned("Review error patterns for common issues"),
            owned("Implement top strategies for improvement"),
        ];
        assert(crate::text::str_views(recommendations@) =~= seq![
            "Review error patterns for common issues"@,
            "Implement top strategies for improvement"@,
        ]);
        OptimizationReport {
            error_patterns_count: self.patterns.len(),
            strategies_count: self.strategies,
            recommendations,
        }
    }
}

} // verus!
