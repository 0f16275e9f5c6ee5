//! Flattening a tree of corpus tests into a list of examples with qualified
//! names, filtered by name; and the settings of a fuzzing run.

use vstd::prelude::*;
use vstd::string::StringExecFns;

use crate::filter::{regex_finds, NameFilter};
use crate::test_entry::{FlattenedTest, TestEntry};

verus! {

/// The owned filesystem path type of the standard library.
#[verifier::external_type_specification]
#[verifier::external_body]
pub struct ExPathBuf(std::path::PathBuf);

/// The settings of a fuzzing run.
pub struct FuzzOptions {
    /// Names of examples to leave out.
    pub skipped: Option<Vec<String>>,
    /// The directory, below the grammar's, whose corpus is fuzzed.
    pub subdir: Option<std::path::PathBuf>,
    /// Edits made to each example per iteration.
    pub edits: usize,
    /// Iterations per example.
    pub iterations: usize,
    /// Only examples whose names this matches are fuzzed.
    pub keep: Option<NameFilter>,
    /// With no `keep` filter, examples whose names this matches are left out.
    pub exclude: Option<NameFilter>,
    pub log_graphs: bool,
    pub log: bool,
}

/// The text that joins a group's name to the name of an entry inside it.
pub open spec fn name_separator() -> Seq<char> {
    seq![' ', '-', ' ']
}

/// The name of an entry whose enclosing group is called `prefix`; an empty
/// prefix leaves the name as it is.
pub open spec fn qualified_name(prefix: Seq<char>, name: Seq<char>) -> Seq<char> {
    if prefix.len() == 0 {
        name
    } else {
        prefix + name_separator() + name
    }
}

/// The pattern of an optional filter.
pub open spec fn filter_pattern(filter: Option<&NameFilter>) -> Option<Seq<char>> {
    match filter {
        Some(f) => Some(f@),
        None => None,
    }
}

/// Whether an example called `name` is kept: a keep pattern, when there
/// is one, must match it, and the exclude pattern is then not consulted;
/// otherwise an exclude pattern, when there is one, must not match it.
pub open spec fn name_admitted(
    keep: Option<Seq<char>>,
    exclude: Option<Seq<char>>,
    name: Seq<char>,
) -> bool {
    match keep {
        Some(p) => regex_finds(p, name),
        None => match exclude {
            Some(p) => !regex_finds(p, name),
            None => true,
        },
    }
}

/// The name under which a group passes itself on to its children.
pub open spec fn group_prefix(is_root: bool, prefix: Seq<char>, name: Seq<char>) -> Seq<char> {
    if !is_root && prefix.len() > 0 {
        prefix + name_separator() + name
    } else {
        name
    }
}

/// The examples of `entry`, depth first and in order, each with its
/// qualified name, that the filters keep.
pub open spec fn flatten_entry(
    entry: TestEntry,
    keep: Option<Seq<char>>,
    exclude: Option<Seq<char>>,
    is_root: bool,
    prefix: Seq<char>,
) -> Seq<(Seq<char>, TestEntry)>
    decreases entry,
{
    match entry {
        TestEntry::Example { name, .. } => {
            let full = qualified_name(prefix, name@);
            if name_admitted(keep, exclude, full) {
                seq![(full, entry)]
            } else {
                seq![]
            }
        },
        TestEntry::Group { name, children } => flatten_children(
            children@,
            keep,
            exclude,
            group_prefix(is_root, prefix, name@),
        ),
    }
}

/// The examples of a list of sibling entries, one after the other.
pub open spec fn flatten_children(
    children: Seq<TestEntry>,
    keep: Option<Seq<char>>,
    exclude: Option<Seq<char>>,
    prefix: Seq<char>,
) -> Seq<(Seq<char>, TestEntry)>
    decreases children,
{
    if children.len() == 0 {
        seq![]
    } else {
        flatten_children(children.drop_last(), keep, exclude, prefix) + flatten_entry(
            children.last(),
            keep,
            exclude,
            false,
            prefix,
        )
    }
}

/// The filter that keeps an item when the patterns admit its name.
pub open spec fn admitted_item(
    keep: Option<Seq<char>>,
    exclude: Option<Seq<char>>,
) -> spec_fn((Seq<char>, TestEntry)) -> bool {
    |item: (Seq<char>, TestEntry)| name_admitted(keep, exclude, item.0)
}

/// Filtering while flattening is the same as flattening everything and then
/// dropping the examples whose qualified names the patterns do not admit:
/// the filters decide on each example alone, by its name, and never change
/// the order or the names of the others.
pub proof fn lemma_flatten_is_filtered_flatten(
    entry: TestEntry,
    keep: Option<Seq<char>>,
    exclude: Option<Seq<char>>,
    is_root: bool,
    prefix: Seq<char>,
)
    ensures
        flatten_entry(entry, keep, exclude, is_root, prefix) == flatten_entry(
            entry,
            None,
            None,
            is_root,
            prefix,
        ).filter(admitted_item(keep, exclude)),
    decreases entry,
{
    match entry {
        TestEntry::Example { name, .. } => {
            let item = (qualified_name(prefix, name@), entry);
            reveal_with_fuel(Seq::filter, 2);
            assert(seq![item].drop_last() =~= Seq::<(Seq<char>, TestEntry)>::empty());
        },
        TestEntry::Group { name, children } => {
            lemma_flatten_children_is_filtered(
                children@,
                keep,
                exclude,
                group_prefix(is_root, prefix, name@),
            );
        },
    }
}

/// The same, for a list of sibling entries.
pub proof fn lemma_flatten_children_is_filtered(
    children: Seq<TestEntry>,
    keep: Option<Seq<char>>,
    exclude: Option<Seq<char>>,
    prefix: Seq<char>,
)
    ensures
        flatten_children(children, keep, exclude, prefix) == flatten_children(
            children,
            None,
            None,
            prefix,
        ).filter(admitted_item(keep, exclude)),
    decreases children,
{
    if children.len() == 0 {
        reveal(Seq::filter);
    } else {
        lemma_flatten_children_is_filtered(children.drop_last(), keep, exclude, prefix);
        lemma_flatten_is_filtered_flatten(children.last(), keep, exclude, false, prefix);
        Seq::filter_distributes_over_add(
            flatten_children(children.drop_last(), None, None, prefix),
            flatten_entry(children.last(), None, None, false, prefix),
            admitted_item(keep, exclude),
        );
    }
}

/// When there is a keep pattern the exclude pattern is never consulted:
/// flattening gives the same examples whatever exclude pattern there is.
pub proof fn lemma_keep_overrides_exclude(
    entry: TestEntry,
    keep: Seq<char>,
    exclude: Option<Seq<char>>,
    other_exclude: Option<Seq<char>>,
    is_root: bool,
    prefix: Seq<char>,
)
    ensures
        flatten_entry(entry, Some(keep), exclude, is_root, prefix) == flatten_entry(
            entry,
            Some(keep),
            other_exclude,
            is_root,
            prefix,
        ),
{
    lemma_flatten_is_filtered_flatten(entry, Some(keep), exclude, is_root, prefix);
    lemma_flatten_is_filtered_flatten(entry, Some(keep), other_exclude, is_root, prefix);
    assert(admitted_item(Some(keep), exclude) =~= admitted_item(Some(keep), other_exclude));
}

/// A keep pattern keeps exactly the examples whose qualified names it
/// matches; with no keep pattern, an exclude pattern drops exactly those
/// whose qualified names it matches. Either way the kept examples come in
/// the order and under the names that flattening without filters gives.
pub proof fn lemma_patterns_select_by_qualified_name(
    entry: TestEntry,
    keep: Seq<char>,
    exclude: Seq<char>,
    other_exclude: Option<Seq<char>>,
    is_root: bool,
    prefix: Seq<char>,
)
    ensures
        flatten_entry(entry, Some(keep), other_exclude, is_root, prefix) == flatten_entry(
            entry,
            None,
            None,
            is_root,
            prefix,
        ).filter(|item: (Seq<char>, TestEntry)| regex_finds(keep, item.0)),
        flatten_entry(entry, None, Some(exclude), is_root, prefix) == flatten_entry(
            entry,
            None,
            None,
            is_root,
            prefix,
        ).filter(|item: (Seq<char>, TestEntry)| !regex_finds(exclude, item.0)),
{
    lemma_flatten_is_filtered_flatten(entry, Some(keep), other_exclude, is_root, prefix);
    lemma_flatten_is_filtered_flatten(entry, None, Some(exclude), is_root, prefix);
    assert(admitted_item(Some(keep), other_exclude) =~= (|item: (Seq<char>, TestEntry)|
        regex_finds(keep, item.0)));
    assert(admitted_item(None, Some(exclude)) =~= (|item: (Seq<char>, TestEntry)|
        !regex_finds(exclude, item.0)));
}

/// The name an example carries in its own header.
pub open spec fn example_name(entry: TestEntry) -> Seq<char> {
    match entry {
        TestEntry::Example { name, .. } => name@,
        TestEntry::Group { name, .. } => name@,
    }
}

/// `s` ends with `t`.
pub open spec fn ends_with(s: Seq<char>, t: Seq<char>) -> bool {
    t.len() <= s.len() && s.subrange(s.len() - t.len(), s.len() as int) == t
}

/// What flattening yields: examples only, each under a name that ends with
/// the example's own name and that the patterns admit.
pub open spec fn well_named_items(
    items: Seq<(Seq<char>, TestEntry)>,
    keep: Option<Seq<char>>,
    exclude: Option<Seq<char>>,
) -> bool {
    forall|i: int|
        0 <= i < items.len() ==> {
            &&& (#[trigger] items[i]).1 is Example
            &&& ends_with(items[i].0, example_name(items[i].1))
            &&& name_admitted(keep, exclude, items[i].0)
        }
}

/// Every flattened item is an example of the tree, named by its own name
/// qualified with the names of the groups above it, and every name that
/// comes out is one the patterns admit.
pub proof fn lemma_flatten_yields_admitted_examples(
    entry: TestEntry,
    keep: Option<Seq<char>>,
    exclude: Option<Seq<char>>,
    is_root: bool,
    prefix: Seq<char>,
)
    ensures
        well_named_items(flatten_entry(entry, keep, exclude, is_root, prefix), keep, exclude),
    decreases entry,
{
    match entry {
        TestEntry::Example { name, .. } => {
            let full = qualified_name(prefix, name@);
            assert(full.subrange(full.len() - name@.len(), full.len() as int) =~= name@);
        },
        TestEntry::Group { name, children } => {
            lemma_flatten_children_yields_admitted_examples(
                children@,
                keep,
                exclude,
                group_prefix(is_root, prefix, name@),
            );
        },
    }
}

/// The same, for a list of sibling entries.
pub proof fn lemma_flatten_children_yields_admitted_examples(
    children: Seq<TestEntry>,
    keep: Option<Seq<char>>,
    exclude: Option<Seq<char>>,
    prefix: Seq<char>,
)
    ensures
        well_named_items(flatten_children(children, keep, exclude, prefix), keep, exclude),
    decreases children,
{
    if children.len() > 0 {
        lemma_flatten_children_yields_admitted_examples(children.drop_last(), keep, exclude, prefix);
        lemma_flatten_yields_admitted_examples(children.last(), keep, exclude, false, prefix);
        let a = flatten_children(children.drop_last(), keep, exclude, prefix);
        let b = flatten_entry(children.last(), keep, exclude, false, prefix);
        assert forall|i: int| 0 <= i < (a + b).len() implies {
            &&& (#[trigger] (a + b)[i]).1 is Example
            &&& ends_with((a + b)[i].0, example_name((a + b)[i].1))
            &&& name_admitted(keep, exclude, (a + b)[i].0)
        } by {
            if i < a.len() {
                assert((a + b)[i] == a[i]);
            } else {
                assert((a + b)[i] == b[i - a.len()]);
            }
        }
    }
}

/// A list of names written one after the other, `" - "` between each and
/// the next, where names that come before anything has been written (empty
/// ones) leave no trace.
pub open spec fn joined_names(names: Seq<Seq<char>>) -> Seq<char>
    decreases names.len(),
{
    if names.len() == 0 {
        Seq::empty()
    } else {
        let init = joined_names(names.drop_last());
        if init.len() == 0 {
            names.last()
        } else {
            init + seq![' ', '-', ' '] + names.last()
        }
    }
}

/// The examples of a tree in depth-first order, each with the names of the
/// groups that enclose it, outermost first, after those in `groups`.
pub open spec fn tree_examples(entry: TestEntry, groups: Seq<Seq<char>>) -> Seq<
    (Seq<Seq<char>>, TestEntry),
>
    decreases entry,
{
    match entry {
        TestEntry::Example { .. } => seq![(groups, entry)],
        TestEntry::Group { name, children } => sibling_examples(children@, groups.push(name@)),
    }
}

/// The examples of sibling entries, the first sibling's first.
pub open spec fn sibling_examples(children: Seq<TestEntry>, groups: Seq<Seq<char>>) -> Seq<
    (Seq<Seq<char>>, TestEntry),
>
    decreases children,
{
    if children.len() == 0 {
        Seq::empty()
    } else {
        sibling_examples(children.drop_last(), groups) + tree_examples(children.last(), groups)
    }
}

/// An example with the names of its enclosing groups, named by them and its
/// own name.
pub open spec fn named_by_path(item: (Seq<Seq<char>>, TestEntry)) -> (Seq<char>, TestEntry) {
    (joined_names(item.0.push(example_name(item.1))), item.1)
}

proof fn lemma_map_named_concat(
    a: Seq<(Seq<Seq<char>>, TestEntry)>,
    b: Seq<(Seq<Seq<char>>, TestEntry)>,
)
    ensures
        (a + b).map_values(|it: (Seq<Seq<char>>, TestEntry)| named_by_path(it)) == a.map_values(
            |it: (Seq<Seq<char>>, TestEntry)| named_by_path(it),
        ) + b.map_values(|it: (Seq<Seq<char>>, TestEntry)| named_by_path(it)),
{
    assert((a + b).map_values(|it: (Seq<Seq<char>>, TestEntry)| named_by_path(it)) =~= a.map_values(
        |it: (Seq<Seq<char>>, TestEntry)| named_by_path(it),
    ) + b.map_values(|it: (Seq<Seq<char>>, TestEntry)| named_by_path(it)));
}

proof fn lemma_flatten_entry_by_path(
    entry: TestEntry,
    is_root: bool,
    prefix: Seq<char>,
    groups: Seq<Seq<char>>,
)
    requires
        prefix == joined_names(groups),
        is_root ==> groups.len() == 0,
    ensures
        flatten_entry(entry, None, None, is_root, prefix) == tree_examples(
            entry,
            groups,
        ).map_values(|it: (Seq<Seq<char>>, TestEntry)| named_by_path(it)),
    decreases entry,
{
    match entry {
        TestEntry::Example { name, .. } => {
            assert(groups.push(name@).drop_last() =~= groups);
            assert(tree_examples(entry, groups).map_values(
                |it: (Seq<Seq<char>>, TestEntry)| named_by_path(it),
            ) =~= seq![(qualified_name(prefix, name@), entry)]);
        },
        TestEntry::Group { name, children } => {
            assert(groups.push(name@).drop_last() =~= groups);
            if is_root {
                assert(groups =~= Seq::<Seq<char>>::empty());
            }
            lemma_flatten_children_by_path(
                children@,
                group_prefix(is_root, prefix, name@),
                groups.push(name@),
            );
        },
    }
}

proof fn lemma_flatten_children_by_path(
    children: Seq<TestEntry>,
    prefix: Seq<char>,
    groups: Seq<Seq<char>>,
)
    requires
        prefix == joined_names(groups),
    ensures
        flatten_children(children, None, None, prefix) == sibling_examples(
            children,
            groups,
        ).map_values(|it: (Seq<Seq<char>>, TestEntry)| named_by_path(it)),
    decreases children,
{
    if children.len() == 0 {
        assert(sibling_examples(children, groups).map_values(
            |it: (Seq<Seq<char>>, TestEntry)| named_by_path(it),
        ) =~= Seq::<(Seq<char>, TestEntry)>::empty());
    } else {
        lemma_flatten_children_by_path(children.drop_last(), prefix, groups);
        lemma_flatten_entry_by_path(children.last(), false, prefix, groups);
        lemma_map_named_concat(
            sibling_examples(children.drop_last(), groups),
            tree_examples(children.last(), groups),
        );
    }
}

/// Without filters, flattening a tree yields every example of it exactly
/// once, in depth-first order, each named by the names of all the groups
/// that enclose it, outermost first (the root's included), and then its own
/// name, joined by `" - "`; only names that come before anything has been
/// written, as an unnamed root's, leave no trace.
pub proof fn lemma_flatten_names_every_example_by_its_path(entry: TestEntry)
    ensures
        flatten_entry(entry, None, None, true, Seq::empty()) == tree_examples(
            entry,
            Seq::empty(),
        ).map_values(|it: (Seq<Seq<char>>, TestEntry)| named_by_path(it)),
{
    lemma_flatten_entry_by_path(entry, true, Seq::empty(), Seq::empty());
}

/// The number of examples in a tree.
pub open spec fn example_count(entry: TestEntry) -> nat
    decreases entry,
{
    match entry {
        TestEntry::Example { .. } => 1,
        TestEntry::Group { children, .. } => sibling_count(children@),
    }
}

/// The number of examples among sibling entries.
pub open spec fn sibling_count(children: Seq<TestEntry>) -> nat
    decreases children,
{
    if children.len() == 0 {
        0
    } else {
        sibling_count(children.drop_last()) + example_count(children.last())
    }
}

proof fn lemma_tree_examples_count(entry: TestEntry, groups: Seq<Seq<char>>)
    ensures
        tree_examples(entry, groups).len() == example_count(entry),
    decreases entry,
{
    match entry {
        TestEntry::Example { .. } => {},
        TestEntry::Group { name, children } => {
            lemma_sibling_examples_count(children@, groups.push(name@));
        },
    }
}

proof fn lemma_sibling_examples_count(children: Seq<TestEntry>, groups: Seq<Seq<char>>)
    ensures
        sibling_examples(children, groups).len() == sibling_count(children),
    decreases children,
{
    if children.len() > 0 {
        lemma_sibling_examples_count(children.drop_last(), groups);
        lemma_tree_examples_count(children.last(), groups);
    }
}

/// Without filters, flattening yields as many tests as the tree has
/// examples.
pub proof fn lemma_flatten_counts_every_example(entry: TestEntry)
    ensures
        flatten_entry(entry, None, None, true, Seq::empty()).len() == example_count(entry),
{
    lemma_flatten_names_every_example_by_its_path(entry);
    lemma_tree_examples_count(entry, Seq::empty());
}

/// `test` is the example `entry` under the name `name`: the name is
/// replaced, every other field is carried over, and no template delimiters
/// are set.
pub open spec fn flattened_from(test: FlattenedTest, name: Seq<char>, entry: TestEntry) -> bool {
    match entry {
        TestEntry::Example { input, output, has_fields, attributes, .. } => {
            &&& test.name@ == name
            &&& test.input == input
            &&& test.output == output
            &&& test.has_fields == has_fields
            &&& test.languages == attributes.languages
            &&& test.expectation == attributes.expectation
            &&& test.template_delimiters is None
        },
        TestEntry::Group { .. } => false,
    }
}

/// `after` is `before` followed by one flattened test for each item.
pub open spec fn appends_flattened(
    before: Seq<FlattenedTest>,
    after: Seq<FlattenedTest>,
    items: Seq<(Seq<char>, TestEntry)>,
) -> bool {
    &&& after.len() == before.len() + items.len()
    &&& forall|i: int| 0 <= i < before.len() ==> after[i] == before[i]
    &&& forall|i: int|
        0 <= i < items.len() ==> flattened_from(
            #[trigger] after[before.len() + i],
            items[i].0,
            items[i].1,
        )
}

proof fn lemma_appends_compose(
    a: Seq<FlattenedTest>,
    b: Seq<FlattenedTest>,
    c: Seq<FlattenedTest>,
    x: Seq<(Seq<char>, TestEntry)>,
    y: Seq<(Seq<char>, TestEntry)>,
)
    requires
        appends_flattened(a, b, x),
        appends_flattened(b, c, y),
    ensures
        appends_flattened(a, c, x + y),
{
    assert forall|i: int| 0 <= i < (x + y).len() implies flattened_from(
        #[trigger] c[a.len() + i],
        (x + y)[i].0,
        (x + y)[i].1,
    ) by {
        if i < x.len() {
            assert(c[a.len() + i] == b[a.len() + i]);
        } else {
            let j = i - x.len();
            assert(c[b.len() + j] == c[a.len() + i]);
        }
    }
}

fn qualify(prefix: &str, name: &str) -> (r: String)
    ensures
        r@ == prefix@ + name_separator() + name@,
{
    proof {
        reveal_strlit(" - ");
    }
    let mut full = String::from_str(prefix);
    full.append(" - ");
    full.append(name);
    full
}

fn flatten_into(
    test: TestEntry,
    keep: Option<&NameFilter>,
    exclude: Option<&NameFilter>,
    is_root: bool,
    prefix: &str,
    result: &mut Vec<FlattenedTest>,
)
    ensures
        appends_flattened(
            old(result)@,
            final(result)@,
            flatten_entry(test, filter_pattern(keep), filter_pattern(exclude), is_root, prefix@),
        ),
    decreases test,
{
    let ghost entry = test;
    let ghost inc = filter_pattern(keep);
    let ghost exc = filter_pattern(exclude);
    match test {
        TestEntry::Example { name, input, output, has_fields, attributes } => {
            let full = if prefix.is_empty() {
                name
            } else {
                qualify(prefix, name.as_str())
            };
            assert(full@ == qualified_name(prefix@, name@));
            if let Some(keep) = keep {
                if !keep.is_match(full.as_str()) {
                    return ;
                }
            } else if let Some(exclude) = exclude {
                if exclude.is_match(full.as_str()) {
                    return ;
                }
            }
            let ghost before = result@;
            result.push(
                FlattenedTest {
                    name: full,
                    input,
                    output,
                    has_fields,
                    languages: attributes.languages,
                    expectation: attributes.expectation,
                    template_delimiters: None,
                },
            );
            assert(flattened_from(result@[before.len() as int], qualified_name(prefix@, name@), entry));
        },
        TestEntry::Group { name, children } => {
            let group_name = if !is_root && !prefix.is_empty() {
                qualify(prefix, name.as_str())
            } else {
                name
            };
            let ghost kids = children@;
            let ghost start = result@;
            assert(kids.take(0) =~= Seq::<TestEntry>::empty());
            #[verifier::loop_isolation(false)]
            for child in it: children
                invariant
                    it.seq() == kids,
                    appends_flattened(
                        start,
                        result@,
                        flatten_children(kids.take(it.index() as int), inc, exc, group_name@),
                    ),
            {
                let ghost idx = it.index();
                let ghost mid = result@;
                assert(child == kids[idx]);
                flatten_into(child, keep, exclude, false, group_name.as_str(), result);
                proof {
                    lemma_appends_compose(
                        start,
                        mid,
                        result@,
                        flatten_children(kids.take(idx), inc, exc, group_name@),
                        flatten_entry(kids[idx], inc, exc, false, group_name@),
                    );
                    assert(kids.take(idx + 1).drop_last() =~= kids.take(idx));
                }
            }
            assert(kids.take(kids.len() as int) =~= kids);
        },
    }
}

/// Flattens the tree `test` into its examples, in order, each named after
/// the groups that enclose it, outermost first and joined by `" - "` (the
/// root's own name counts when it is not empty: `"root - group - name"`),
/// keeping those whose qualified name the keep filter matches, or, with
/// no keep filter, those the exclude filter does not match.
pub fn flatten_tests(
    test: TestEntry,
    keep: Option<&NameFilter>,
    exclude: Option<&NameFilter>,
) -> (r: Vec<FlattenedTest>)
    ensures
        appends_flattened(
            Seq::empty(),
            r@,
            flatten_entry(test, filter_pattern(keep), filter_pattern(exclude), true, Seq::empty()),
        ),
{
    let mut result: Vec<FlattenedTest> = Vec::new();
    proof {
        reveal_strlit("");
    }
    flatten_into(test, keep, exclude, true, "", &mut result);
    result
}

} // verus!
