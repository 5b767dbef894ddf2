//! The rule-matching engine: rule sets grouped under a category, and the
//! query operations that report which rules match a unit of text.

use crate::pattern_set::compile_pattern_set;
use crate::pattern_set::lemma_matched_indices_exact;
use crate::pattern_set::matched_indices;
use crate::pattern_set::pattern_matches;
use crate::pattern_set::pattern_set_matches;
use crate::pattern_set::patterns_compile;
use crate::pattern_set::regex_error_message;
use crate::pattern_set::set_patterns;
use vstd::prelude::*;

verus! {

/// A rule-matching failure, carrying a human-readable description.
#[derive(Debug)]
pub enum MetadataGuardianError {
    /// The configuration source could not be opened or read.
    FileNotFound { message: String },
    /// The configuration content does not match the expected schema.
    InvalidYaml { message: String },
    /// A rule pattern is not a valid regular expression.
    InvalidRegex { message: String },
}

impl MetadataGuardianError {
    /// The description carried by the error, whichever variant it is.
    pub open spec fn message_spec(&self) -> Seq<char> {
        match self {
            MetadataGuardianError::FileNotFound { message } => message@,
            MetadataGuardianError::InvalidYaml { message } => message@,
            MetadataGuardianError::InvalidRegex { message } => message@,
        }
    }

    /// The description of the error, safe to hand across a foreign
    /// boundary as a plain string.
    pub fn message(&self) -> (m: &str)
        ensures
            m@ == self.message_spec(),
    {
        match self {
            MetadataGuardianError::FileNotFound { message } => message.as_str(),
            MetadataGuardianError::InvalidYaml { message } => message.as_str(),
            MetadataGuardianError::InvalidRegex { message } => message.as_str(),
        }
    }
}

/// The mathematical value of a rule: its name, pattern and documentation
/// as plain character sequences.
#[verifier::ext_equal]
pub ghost struct RuleModel {
    pub rule_name: Seq<char>,
    pub pattern: Seq<char>,
    pub documentation: Seq<char>,
}

/// A single named regular-expression check with its documentation.
#[derive(Debug, Eq)]
pub struct DataRule {
    /// Name of the rule
    pub rule_name: String,
    /// Regex pattern
    pub pattern: String,
    /// Documentation of the rule
    pub documentation: String,
}

impl View for DataRule {
    type V = RuleModel;

    open spec fn view(&self) -> RuleModel {
        RuleModel {
            rule_name: self.rule_name@,
            pattern: self.pattern@,
            documentation: self.documentation@,
        }
    }
}

impl DataRule {
    /// Create a new instance of the DataRule.
    pub fn new(rule_name: String, pattern: String, documentation: String) -> (r: Self)
        ensures
            r@ == (RuleModel {
                rule_name: rule_name@,
                pattern: pattern@,
                documentation: documentation@,
            }),
    {
        DataRule { rule_name, pattern, documentation }
    }
}

impl PartialEq for DataRule {
    fn eq(&self, other: &Self) -> (r: bool) {
        let r = self.rule_name == other.rule_name && self.pattern == other.pattern
            && self.documentation == other.documentation;
        proof {
            if r {
                assert(self@ =~= other@);
            }
        }
        r
    }
}

impl vstd::std_specs::cmp::PartialEqSpecImpl for DataRule {
    open spec fn obeys_eq_spec() -> bool {
        true
    }

    open spec fn eq_spec(&self, other: &Self) -> bool {
        self@ == other@
    }
}

impl Clone for DataRule {
    fn clone(&self) -> (r: Self)
        ensures
            r == *self,
    {
        DataRule {
            rule_name: self.rule_name.clone(),
            pattern: self.pattern.clone(),
            documentation: self.documentation.clone(),
        }
    }
}

/// The mathematical value of a rule set: its category and its rules, in
/// order.  The compiled matcher is derived data and not part of the value.
#[verifier::ext_equal]
pub ghost struct RulesModel {
    pub category: Seq<char>,
    pub rules: Seq<RuleModel>,
}

/// The patterns of a rule list, in rule order.
pub open spec fn rule_patterns(rules: Seq<RuleModel>) -> Seq<Seq<char>> {
    rules.map_values(|r: RuleModel| r.pattern)
}

/// All the regex rules to apply under one category, with the combined
/// matcher compiled from their patterns.
#[derive(Debug)]
pub struct DataRules {
    /// Category of the regex
    pub category: String,
    /// All the data rules
    pub data_rules: Vec<DataRule>,
    /// Compiled pattern set, derived from the rules at construction.
    regex_set: regex::RegexSet,
}

impl View for DataRules {
    type V = RulesModel;

    closed spec fn view(&self) -> RulesModel {
        RulesModel {
            category: self.category@,
            rules: self.data_rules@.map_values(|dr: DataRule| dr@),
        }
    }
}

impl PartialEq for DataRules {
    /// Equality is category plus rule list; the compiled matcher is
    /// derived data and takes no part in it.
    #[verifier::loop_isolation(false)]
    fn eq(&self, other: &Self) -> (r: bool) {
        if !(self.category == other.category) {
            proof {
                assert(self@ != other@);
            }
            return false;
        }
        if self.data_rules.len() != other.data_rules.len() {
            proof {
                assert(self@.rules.len() != other@.rules.len());
            }
            return false;
        }
        let mut i: usize = 0;
        while i < self.data_rules.len()
            invariant
                i <= self.data_rules@.len(),
                forall|j: int| 0 <= j < i ==> self.data_rules@[j]@ == other.data_rules@[j]@,
            decreases self.data_rules@.len() - i,
        {
            if !(self.data_rules[i] == other.data_rules[i]) {
                proof {
                    assert(self@.rules[i as int] != other@.rules[i as int]);
                }
                return false;
            }
            i += 1;
        }
        proof {
            assert(self@.rules =~~= other@.rules);
            assert(self@ =~~= other@);
        }
        true
    }
}

impl vstd::std_specs::cmp::PartialEqSpecImpl for DataRules {
    open spec fn obeys_eq_spec() -> bool {
        true
    }

    open spec fn eq_spec(&self, other: &Self) -> bool {
        self@ == other@
    }
}

impl Eq for DataRules {
}

impl DataRules {
    /// The compiled matcher was built from exactly the patterns of the
    /// rules, in rule order.  Constructors establish this and queries
    /// rely on it.
    pub closed spec fn wf(&self) -> bool {
        set_patterns(self.regex_set) == rule_patterns(self@.rules)
    }

    /// Create a new Data Rules: compile every rule pattern into one
    /// combined matcher, atomically.  Succeeds exactly when the whole
    /// pattern list compiles; on failure no rule set is produced and the
    /// error reports the failed compilation.
    pub fn new(category: &str, data_rules: Vec<DataRule>) -> (r: Result<
        Self,
        MetadataGuardianError,
    >)
        ensures
            r is Ok <==> patterns_compile(rule_patterns(data_rules@.map_values(|dr: DataRule| dr@))),
            r matches Ok(rules) ==> rules.wf() && rules@ == (RulesModel {
                category: category@,
                rules: data_rules@.map_values(|dr: DataRule| dr@),
            }),
            r matches Err(e) ==> e is InvalidRegex,
    {
        let ghost model_rules = data_rules@.map_values(|dr: DataRule| dr@);
        let mut patterns: Vec<String> = Vec::new();
        let mut i: usize = 0;
        while i < data_rules.len()
            invariant
                i <= data_rules.len(),
                patterns@.len() == i,
                forall|j: int| 0 <= j < i ==> #[trigger] patterns@[j]@ == data_rules@[j].pattern@,
            decreases data_rules.len() - i,
        {
            patterns.push(data_rules[i].pattern.clone());
            i += 1;
        }
        assert(patterns@.map_values(|p: String| p@) =~= rule_patterns(model_rules));
        match compile_pattern_set(&patterns) {
            Ok(set) => {
                let rules = DataRules { category: category.to_owned(), data_rules, regex_set: set };
                assert(rules@.rules =~= model_rules);
                Ok(rules)
            },
            Err(e) => {
                let message = regex_error_message(&e);
                Err(MetadataGuardianError::InvalidRegex { message })
            },
        }
    }

    /// Collect the rules whose pattern matches the content, in ascending
    /// rule-index order.
    #[verifier::loop_isolation(false)]
    fn matched_rules_vec(&self, content: &str) -> (r: Vec<DataRule>)
        requires
            self.wf(),
        ensures
            r@.map_values(|dr: DataRule| dr@) == matched_rule_seq(self@.rules, content@),
    {
        let ghost patterns = rule_patterns(self@.rules);
        let idxs = pattern_set_matches(&self.regex_set, content);
        let ghost mi = matched_indices(patterns, content@);
        proof {
            lemma_matched_indices_exact(patterns, content@);
        }
        assert forall|k: int|
            0 <= k < idxs@.len() implies (idxs@[k] as int) == mi[k] && 0 <= (idxs@[k] as int)
            < self.data_rules@.len() by {
            let v = idxs@.map_values(|u: usize| u as int);
            assert(v[k] == idxs@[k] as int);
            assert(0 <= matched_indices(patterns, content@)[k] < patterns.len());
        }
        let mut matched: Vec<DataRule> = Vec::new();
        let mut j: usize = 0;
        while j < idxs.len()
            invariant
                j <= idxs@.len(),
                matched@.map_values(|dr: DataRule| dr@) == mi.take(j as int).map_values(
                    |i: int| self@.rules[i],
                ),
            decreases idxs@.len() - j,
        {
            proof {
                let v = idxs@.map_values(|u: usize| u as int);
                assert(v[j as int] == idxs@[j as int] as int);
                assert(v[j as int] == mi[j as int]);
                assert(0 <= matched_indices(patterns, content@)[j as int] < patterns.len());
            }
            let idx = idxs[j];
            let ghost pre = matched@;
            matched.push(self.data_rules[idx].clone());
            proof {
                let f = |dr: DataRule| dr@;
                let g = |i: int| self@.rules[i];
                assert(matched@ == pre.push(self.data_rules@[idx as int]));
                lemma_map_values_push(pre, f, self.data_rules@[idx as int]);
                assert(self@.rules[mi[j as int]] == self.data_rules@[idx as int]@);
                assert(mi.take(j + 1) =~= mi.take(j as int).push(mi[j as int]));
                lemma_map_values_push(mi.take(j as int), g, mi[j as int]);
                assert(matched@.map_values(f) =~~= mi.take(j + 1).map_values(g));
            }
            j += 1;
        }
        proof {
            assert(mi.take(mi.len() as int) =~= mi);
            assert(matched@.map_values(|dr: DataRule| dr@) =~~= matched_rule_seq(
                self@.rules,
                content@,
            ));
        }
        matched
    }

    /// Validate a word based on the data rules: always one result, whose
    /// matched rules are exactly those whose pattern matches the word, in
    /// ascending rule-index order.
    pub fn validate_word(&self, word: &str) -> (r: MetadataGuardianResults)
        requires
            self.wf(),
        ensures
            r@ == word_result(self@, word@),
    {
        let data_rules = self.matched_rules_vec(word);
        let r = MetadataGuardianResults {
            category: self.category.clone(),
            content: word.to_owned(),
            data_rules,
        };
        proof {
            assert(r@ =~~= word_result(self@, word@));
        }
        r
    }

    /// Test one content unit the way the batch operations do: the empty
    /// string and units no rule matches produce no entry; any other unit
    /// produces the same result validate_word reports for it.
    pub fn validate_unit(&self, content: &str) -> (r: Option<MetadataGuardianResults>)
        requires
            self.wf(),
        ensures
            r is Some <==> unit_kept(self@, content@),
            r matches Some(m) ==> m@ == word_result(self@, content@),
    {
        if content.is_empty() {
            return None;
        }
        let data_rules = self.matched_rules_vec(content);
        if data_rules.len() == 0 {
            None
        } else {
            let r = MetadataGuardianResults {
                category: self.category.clone(),
                content: content.to_owned(),
                data_rules,
            };
            proof {
                assert(r@ =~~= word_result(self@, content@));
            }
            Some(r)
        }
    }

    /// Validate a list of words based on the data rules.  Empty words are
    /// skipped and words with no matching rule produce no entry; each kept
    /// word yields the result validate_word reports for it, here in input
    /// order (callers may not rely on any order across words).
    pub fn validate_words(&self, words: Vec<&str>) -> (r: Vec<MetadataGuardianResults>)
        requires
            self.wf(),
        ensures
            r@.map_values(|m: MetadataGuardianResults| m@) == batch_results(
                self@,
                words@.map_values(|w: &str| w@),
            ),
    {
        let ghost units = words@.map_values(|w: &str| w@);
        let mut results: Vec<MetadataGuardianResults> = Vec::new();
        let mut i: usize = 0;
        while i < words.len()
            invariant
                i <= words@.len(),
                self.wf(),
                units == words@.map_values(|w: &str| w@),
                results@.map_values(|m: MetadataGuardianResults| m@) == batch_results(
                    self@,
                    units.take(i as int),
                ),
            decreases words@.len() - i,
        {
            let word = words[i];
            proof {
                assert(units.take(i + 1).drop_last() =~= units.take(i as int));
                assert(units.take(i + 1).last() == word@);
            }
            match self.validate_unit(word) {
                Some(m) => {
                    results.push(m);
                },
                None => {},
            }
            proof {
                assert(results@.map_values(|m: MetadataGuardianResults| m@) =~~= batch_results(
                    self@,
                    units.take(i + 1),
                ));
            }
            i += 1;
        }
        proof {
            assert(units.take(units.len() as int) =~= units);
        }
        results
    }
}

/// The mathematical value of a match report: the category, the content
/// unit tested, and the rules that matched it.
#[verifier::ext_equal]
pub ghost struct ResultsModel {
    pub category: Seq<char>,
    pub content: Seq<char>,
    pub rules: Seq<RuleModel>,
}

/// Metadata Guardian results: which rules matched one content unit.
#[derive(Debug, PartialEq, Eq)]
pub struct MetadataGuardianResults {
    /// Category of the rule set the content was tested against.
    pub category: String,
    /// Content that was tested.
    pub content: String,
    /// The rules that match the content.
    pub data_rules: Vec<DataRule>,
}

impl View for MetadataGuardianResults {
    type V = ResultsModel;

    open spec fn view(&self) -> ResultsModel {
        ResultsModel {
            category: self.category@,
            content: self.content@,
            rules: self.data_rules@.map_values(|dr: DataRule| dr@),
        }
    }
}

proof fn lemma_map_values_push<A, B>(s: Seq<A>, f: spec_fn(A) -> B, x: A)
    ensures
        s.push(x).map_values(f) =~= s.map_values(f).push(f(x)),
{
}

/// The rules whose pattern matches the text, in ascending rule-index
/// order.
pub open spec fn matched_rule_seq(rules: Seq<RuleModel>, text: Seq<char>) -> Seq<RuleModel> {
    matched_indices(rule_patterns(rules), text).map_values(|i: int| rules[i])
}

/// The one result a single-word query reports.
pub open spec fn word_result(model: RulesModel, word: Seq<char>) -> ResultsModel {
    ResultsModel {
        category: model.category,
        content: word,
        rules: matched_rule_seq(model.rules, word),
    }
}

/// Whether a batch operation keeps an entry for a content unit: the unit
/// is non-empty and at least one rule matches it.
pub open spec fn unit_kept(model: RulesModel, content: Seq<char>) -> bool {
    content.len() > 0 && matched_rule_seq(model.rules, content).len() > 0
}

/// The results of a batch scan over a sequence of content units, one
/// entry per kept unit, in input order.
pub open spec fn batch_results(model: RulesModel, units: Seq<Seq<char>>) -> Seq<ResultsModel>
    decreases units.len(),
{
    if units.len() == 0 {
        Seq::empty()
    } else if unit_kept(model, units.last()) {
        batch_results(model, units.drop_last()).push(word_result(model, units.last()))
    } else {
        batch_results(model, units.drop_last())
    }
}

/// Law: the single-word query reports the word itself under the rule
/// set's category, and its matched rules are the rules at the matching
/// indices — rule `k` is reported exactly when pattern `k` matches the
/// word — in strictly ascending rule-index order.
pub proof fn lemma_word_result_exact(model: RulesModel, word: Seq<char>)
    ensures
        word_result(model, word).category == model.category,
        word_result(model, word).content == word,
        word_result(model, word).rules == matched_indices(
            rule_patterns(model.rules),
            word,
        ).map_values(|i: int| model.rules[i]),
        forall|k: int|
            matched_indices(rule_patterns(model.rules), word).contains(k) <==> (0 <= k
                < model.rules.len() && pattern_matches(#[trigger] model.rules[k].pattern, word)),
        forall|a: int, b: int|
            0 <= a < b < matched_indices(rule_patterns(model.rules), word).len()
                ==> matched_indices(rule_patterns(model.rules), word)[a] < matched_indices(
                rule_patterns(model.rules),
                word,
            )[b],
{
    let patterns = rule_patterns(model.rules);
    lemma_matched_indices_exact(patterns, word);
    assert forall|k: int|
        matched_indices(patterns, word).contains(k) <==> (0 <= k < model.rules.len()
            && pattern_matches(#[trigger] model.rules[k].pattern, word)) by {
        if 0 <= k < model.rules.len() {
            assert(patterns[k] == model.rules[k].pattern);
        }
    }
}

/// Law: validating the same word twice against the same rule set yields
/// identical results — the reported result is a pure function of the rule
/// set's value and the word, with no hidden state.
pub proof fn lemma_validate_word_idempotent(
    model: RulesModel,
    word: Seq<char>,
    r1: ResultsModel,
    r2: ResultsModel,
)
    requires
        r1 == word_result(model, word),
        r2 == word_result(model, word),
    ensures
        r1 == r2,
{
}

/// Law: a batch scan never reports an entry for the empty string, nor an
/// entry whose matched-rule list is empty.
pub proof fn lemma_batch_results_filtered(model: RulesModel, units: Seq<Seq<char>>)
    ensures
        forall|j: int|
            0 <= j < batch_results(model, units).len() ==> (#[trigger] batch_results(
                model,
                units,
            )[j]).content.len() > 0 && batch_results(model, units)[j].rules.len() > 0,
    decreases units.len(),
{
    if units.len() > 0 {
        lemma_batch_results_filtered(model, units.drop_last());
        let rest = batch_results(model, units.drop_last());
        let cur = batch_results(model, units);
        assert forall|j: int| 0 <= j < cur.len() implies (#[trigger] cur[j]).content.len() > 0
            && cur[j].rules.len() > 0 by {
            if unit_kept(model, units.last()) && j == rest.len() {
                assert(cur[j] == word_result(model, units.last()));
            } else {
                assert(cur[j] == rest[j]);
            }
        }
    }
}

/// Returns the crate version, usable by language bindings to expose the
/// core version.
pub fn crate_version() -> (v: &'static str)
    ensures
        v@ == "0.1.0"@,
{
    "0.1.0"
}

} // verus!
