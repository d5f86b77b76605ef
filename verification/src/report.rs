//! The lines that are put out: the list of the displays, and the bindings of
//! the rules.

use crate::catalog::{catalog_of, lemma_last_record_wins, Catalog};
use crate::decimal::{decimal, push_decimal};
use crate::discovery::{records_of, DisplayInfo, DisplayRecord};
use crate::rule::{rule_views, MapRule, MapRuleView};
use vstd::prelude::*;
use vstd::string::*;

verus! {

/// The texts of `lines`.
pub open spec fn line_texts(lines: Seq<String>) -> Seq<Seq<char>> {
    lines.map_values(|line: String| line@)
}

/// The line that lists one display.
pub open spec fn listing_line(record: DisplayRecord) -> Seq<char> {
    "Short Name: "@ + record.short_name + "   Serial: "@ + decimal(record.serial_number as nat)
}

/// The list of the displays: one line for each, in their order.
pub open spec fn listing(records: Seq<DisplayRecord>) -> Seq<Seq<char>> {
    Seq::new(records.len(), |i: int| listing_line(records[i]))
}

/// The short name that a serial number is bound to: that of the catalog, or
/// `Unknown` where the catalog has none.
pub open spec fn bound_name(catalog: Map<u32, Seq<char>>, serial_number: u32) -> Seq<char> {
    if catalog.contains_key(serial_number) {
        catalog[serial_number]
    } else {
        "Unknown"@
    }
}

/// The line that binds a variable to a short name.
pub open spec fn binding_line(variable_name: Seq<char>, short_name: Seq<char>) -> Seq<char> {
    "set $"@ + variable_name + " "@ + short_name
}

/// The comment on a serial number that no display has.
pub open spec fn diagnostic_line(serial_number: u32) -> Seq<char> {
    "# No display for serial number "@ + decimal(serial_number as nat)
}

/// The binding of one rule.
pub open spec fn binding_of(catalog: Map<u32, Seq<char>>, rule: MapRuleView) -> Seq<char> {
    binding_line(rule.variable_name, bound_name(catalog, rule.serial_number))
}

/// The lines of one rule: its binding, and before it the comment where the
/// catalog has no display for the rule.
pub open spec fn rule_lines(catalog: Map<u32, Seq<char>>, rule: MapRuleView) -> Seq<Seq<char>> {
    if catalog.contains_key(rule.serial_number) {
        seq![binding_of(catalog, rule)]
    } else {
        seq![diagnostic_line(rule.serial_number), binding_of(catalog, rule)]
    }
}

/// The lines of the rules, rule after rule.
pub open spec fn config_lines(catalog: Map<u32, Seq<char>>, rules: Seq<MapRuleView>) -> Seq<
    Seq<char>,
>
    decreases rules.len(),
{
    if rules.len() == 0 {
        Seq::empty()
    } else {
        config_lines(catalog, rules.drop_last()) + rule_lines(catalog, rules.last())
    }
}

/// The line that lists `display`.
pub fn listing_line_of(display: &DisplayInfo) -> (line: String)
    ensures
        line@ == listing_line(display@),
{
    let mut line = String::from_str("Short Name: ");
    line.append(display.short_name.as_str());
    line.append("   Serial: ");
    push_decimal(&mut line, display.serial_number);
    line
}

/// The list of the displays: one line for each, in their order.
pub fn listing_lines(displays: &Vec<DisplayInfo>) -> (lines: Vec<String>)
    ensures
        line_texts(lines@) == listing(records_of(displays@)),
{
    let mut lines: Vec<String> = Vec::new();
    let mut i: usize = 0;
    while i < displays.len()
        invariant
            i <= displays.len(),
            lines@.len() == i,
            forall|k: int| 0 <= k < i ==> (#[trigger] lines@[k])@ == listing_line(displays@[k]@),
        decreases displays.len() - i,
    {
        lines.push(listing_line_of(&displays[i]));
        i += 1;
    }
    assert(line_texts(lines@) =~= listing(records_of(displays@)));
    lines
}

/// Appends the lines of `rule` to `lines`.
pub fn push_rule_lines(lines: &mut Vec<String>, catalog: &Catalog, rule: &MapRule)
    ensures
        line_texts(final(lines)@) == line_texts(old(lines)@) + rule_lines(catalog@, rule@),
{
    let ghost before = line_texts(lines@);
    let mut binding = String::from_str("set $");
    binding.append(rule.variable_name.as_str());
    binding.append(" ");
    match catalog.get(rule.serial_number) {
        Some(name) => {
            binding.append(name.as_str());
        },
        None => {
            let mut comment = String::from_str("# No display for serial number ");
            push_decimal(&mut comment, rule.serial_number);
            lines.push(comment);
            binding.append("Unknown");
        },
    }
    lines.push(binding);
    assert(line_texts(lines@) =~= before + rule_lines(catalog@, rule@));
}

/// The lines of the rules against a catalog, rule after rule.
pub fn reconcile(catalog: &Catalog, rules: &Vec<MapRule>) -> (lines: Vec<String>)
    ensures
        line_texts(lines@) == config_lines(catalog@, rule_views(rules@)),
{
    let ghost views = rule_views(rules@);
    let mut lines: Vec<String> = Vec::new();
    let mut i: usize = 0;
    assert(views.subrange(0, 0) =~= Seq::<MapRuleView>::empty());
    assert(line_texts(lines@) =~= Seq::<Seq<char>>::empty());
    while i < rules.len()
        invariant
            i <= rules.len(),
            views == rule_views(rules@),
            line_texts(lines@) == config_lines(catalog@, views.subrange(0, i as int)),
        decreases rules.len() - i,
    {
        assert(views.subrange(0, i + 1).drop_last() =~= views.subrange(0, i as int));
        assert(views.subrange(0, i + 1).last() == rules@[i as int]@);
        push_rule_lines(&mut lines, catalog, &rules[i]);
        i += 1;
    }
    assert(views.subrange(0, i as int) =~= views);
    lines
}

/// The lines of the rules against the displays that were found: the catalog
/// is made of the displays in their order, then each rule is looked up in it.
pub fn mapped_config_lines(displays: &Vec<DisplayInfo>, rules: &Vec<MapRule>) -> (lines: Vec<
    String,
>)
    ensures
        line_texts(lines@) == config_lines(
            catalog_of(records_of(displays@)),
            rule_views(rules@),
        ),
{
    let catalog = Catalog::from_displays(displays);
    reconcile(&catalog, rules)
}

/// The line is a comment: it begins with `#`.
pub open spec fn is_comment(line: Seq<char>) -> bool {
    line.len() > 0 && line[0] == '#'
}

/// The test that keeps the comments.
pub open spec fn comments() -> spec_fn(Seq<char>) -> bool {
    |line: Seq<char>| is_comment(line)
}

/// The test that keeps the lines that are no comments.
pub open spec fn bindings() -> spec_fn(Seq<char>) -> bool {
    |line: Seq<char>| !is_comment(line)
}

/// The test that keeps the rules for which the catalog has no display.
pub open spec fn unmatched(catalog: Map<u32, Seq<char>>) -> spec_fn(MapRuleView) -> bool {
    |rule: MapRuleView| !catalog.contains_key(rule.serial_number)
}

/// A binding is no comment, and the comment on a serial number is one.
pub proof fn lemma_kinds_of_lines(variable_name: Seq<char>, short_name: Seq<char>, serial_number: u32)
    ensures
        !is_comment(binding_line(variable_name, short_name)),
        is_comment(diagnostic_line(serial_number)),
{
    reveal_strlit("set $");
    reveal_strlit("# No display for serial number ");
    assert(binding_line(variable_name, short_name)[0] == 's');
    assert(diagnostic_line(serial_number)[0] == '#');
}

/// A rule whose serial number the catalog holds yields one line, which binds
/// its variable to the short name in the catalog.
pub proof fn lemma_matched_rule(catalog: Map<u32, Seq<char>>, rule: MapRuleView)
    requires
        catalog.contains_key(rule.serial_number),
    ensures
        rule_lines(catalog, rule) == seq![
            binding_line(rule.variable_name, catalog[rule.serial_number]),
        ],
{
}

/// A rule whose serial number the catalog does not hold yields two lines: the
/// comment on its serial number, then the binding of its variable to `Unknown`.
pub proof fn lemma_unmatched_rule(catalog: Map<u32, Seq<char>>, rule: MapRuleView)
    requires
        !catalog.contains_key(rule.serial_number),
    ensures
        rule_lines(catalog, rule) == seq![
            diagnostic_line(rule.serial_number),
            binding_line(rule.variable_name, "Unknown"@),
        ],
{
}

/// A rule is bound to the last display that has its serial number: where the
/// record at `i` has the serial number of `rule` and no later record has it,
/// the one line of `rule` binds its variable to the short name of that record.
pub proof fn lemma_rule_bound_to_last_display(
    records: Seq<DisplayRecord>,
    i: int,
    rule: MapRuleView,
)
    requires
        0 <= i < records.len(),
        records[i].serial_number == rule.serial_number,
        forall|j: int|
            i < j < records.len() ==> (#[trigger] records[j]).serial_number != rule.serial_number,
    ensures
        rule_lines(catalog_of(records), rule) == seq![
            binding_line(rule.variable_name, records[i].short_name),
        ],
{
    lemma_last_record_wins(records, i);
}

/// Every rule has exactly one binding, and the bindings stand in the order of
/// the rules: the lines that are no comments are the bindings of the rules,
/// one after the other.
pub proof fn lemma_one_binding_per_rule(catalog: Map<u32, Seq<char>>, rules: Seq<MapRuleView>)
    ensures
        config_lines(catalog, rules).filter(bindings()) == Seq::new(
            rules.len(),
            |i: int| binding_of(catalog, rules[i]),
        ),
    decreases rules.len(),
{
    reveal_with_fuel(Seq::filter, 3);
    let kept = config_lines(catalog, rules).filter(bindings());
    let expected = Seq::new(rules.len(), |i: int| binding_of(catalog, rules[i]));
    if rules.len() == 0 {
        assert(kept =~= expected);
    } else {
        let rest = rules.drop_last();
        let last = rules.last();
        lemma_one_binding_per_rule(catalog, rest);
        Seq::filter_distributes_over_add(
            config_lines(catalog, rest),
            rule_lines(catalog, last),
            bindings(),
        );
        lemma_kinds_of_lines(
            last.variable_name,
            bound_name(catalog, last.serial_number),
            last.serial_number,
        );
        assert(rule_lines(catalog, last).filter(bindings()) =~= seq![binding_of(catalog, last)]);
        assert(kept =~= expected);
    }
}

/// Every rule for which the catalog has no display has exactly one comment,
/// which names its serial number, and no other rule has one: the comments
/// among the lines are those of the unmatched rules, one after the other.
pub proof fn lemma_one_comment_per_unmatched_rule(
    catalog: Map<u32, Seq<char>>,
    rules: Seq<MapRuleView>,
)
    ensures
        config_lines(catalog, rules).filter(comments()) == rules.filter(
            unmatched(catalog),
        ).map_values(|rule: MapRuleView| diagnostic_line(rule.serial_number)),
    decreases rules.len(),
{
    reveal_with_fuel(Seq::filter, 3);
    let kept = config_lines(catalog, rules).filter(comments());
    let expected = rules.filter(unmatched(catalog)).map_values(
        |rule: MapRuleView| diagnostic_line(rule.serial_number),
    );
    if rules.len() == 0 {
        assert(kept =~= expected);
    } else {
        let rest = rules.drop_last();
        let last = rules.last();
        lemma_one_comment_per_unmatched_rule(catalog, rest);
        Seq::filter_distributes_over_add(
            config_lines(catalog, rest),
            rule_lines(catalog, last),
            comments(),
        );
        lemma_kinds_of_lines(
            last.variable_name,
            bound_name(catalog, last.serial_number),
            last.serial_number,
        );
        if catalog.contains_key(last.serial_number) {
            assert(rule_lines(catalog, last).filter(comments()) =~= Seq::<Seq<char>>::empty());
        } else {
            assert(rule_lines(catalog, last).filter(comments()) =~= seq![
                diagnostic_line(last.serial_number),
            ]);
        }
        assert(kept =~= expected);
    }
}

} // verus!
