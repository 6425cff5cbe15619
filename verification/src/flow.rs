//! Moving an issue between the label stages of the configured git flow, and
//! the shell-command helpers shared by the `gh`/`git` calls.
use vstd::prelude::*;
use vstd::relations::{sorted_by, total_ordering};
use crate::config::Config;
use crate::pattern::{compile_pattern, pattern_is_match, regex_compiles, regex_is_match};
use crate::text::{
    concat_str, decimal, decimal_string, parse_i32, parsed_i32, signed_decimal,
    signed_decimal_string, split_chars, split_on, str_eq, views, contains_string,
    lemma_split_nonempty,
};

verus! {

// ---------------------------------------------------------------------------
// Commands
// ---------------------------------------------------------------------------

/// A command split into the program and its arguments.
pub struct CommandLine {
    pub program: String,
    pub args: Vec<String>,
}

/// Splits a command at every space: the first piece names the program, the
/// others are its arguments (empty pieces included).
pub fn command_line(command: &str) -> (res: CommandLine)
    ensures
        res.program@ == split_on(command@, ' ')[0],
        views(res.args@) == split_on(command@, ' ').drop_first(),
{
    let mut pieces = split_chars(command, ' ');
    proof {
        lemma_split_nonempty(command@, ' ');
    }
    let ghost all = views(pieces@);
    let program = pieces.remove(0);
    assert(views(pieces@) == all.drop_first());
    CommandLine { program, args: pieces }
}

/// The last space-separated piece of a command, which names the label or
/// branch a failed command was about.
pub fn last_argument(command: &str) -> (res: String)
    ensures
        res@ == split_on(command@, ' ').last(),
{
    let mut pieces = split_chars(command, ' ');
    proof {
        lemma_split_nonempty(command@, ' ');
    }
    let n = pieces.len();
    let last = pieces.remove(n - 1);
    last
}

/// How a failed `gh` command is reported.
#[derive(Clone, Copy, Debug, PartialEq, Eq)]
pub enum FailureKind {
    /// The error output says that a label was not found.
    MissingLabel,
    /// Any other failure: the error output is shown as it is.
    Other,
}

/// Why a flow step could not be worked out.
#[derive(Clone, Debug)]
pub enum FlowError {
    /// A fixed pattern was refused by the regex engine.
    InvalidPattern,
    /// A stage key of the configuration is not an `i32`.
    InvalidStageKey(String),
}

/// The pattern of `gh`'s message for a label that does not exist.
pub open spec fn missing_label_pattern() -> Seq<char> {
    "failed to update.* not found"@
}

/// Sorts out a failed command's error output: a missing label, or anything else.
pub fn error_msg_transcate(output: &str) -> (res: Result<FailureKind, FlowError>)
    ensures
        res is Err <==> !regex_compiles(missing_label_pattern()),
        res matches Ok(k) ==> (k == FailureKind::MissingLabel <==> regex_is_match(
            missing_label_pattern(),
            output@,
        )),
{
    match compile_pattern("failed to update.* not found") {
        Ok(re) => {
            if pattern_is_match(&re, output) {
                Ok(FailureKind::MissingLabel)
            } else {
                Ok(FailureKind::Other)
            }
        },
        Err(_) => Err(FlowError::InvalidPattern),
    }
}

// ---------------------------------------------------------------------------
// Flow configuration
// ---------------------------------------------------------------------------

/// The stage table used when none is configured: keys `1`, `2` and `3`,
/// each holding the single pair `label` -> `lable<key>`.
pub open spec fn default_stage(n: nat) -> (Seq<char>, Seq<(Seq<char>, Seq<char>)>) {
    (decimal(n), seq![("label"@, "lable"@ + decimal(n))])
}

/// Builds the default stage table.
pub fn parse_flow_config() -> (res: Vec<(String, Vec<(String, String)>)>)
    ensures
        res.len() == 3,
        forall|i: int|
            0 <= i < 3 ==> {
                &&& (#[trigger] res@[i]).0@ == default_stage((i + 1) as nat).0
                &&& res@[i].1@.len() == 1
                &&& res@[i].1@[0].0@ == default_stage((i + 1) as nat).1[0].0
                &&& res@[i].1@[0].1@ == default_stage((i + 1) as nat).1[0].1
            },
{
    let mut configs: Vec<(String, Vec<(String, String)>)> = Vec::new();
    for i in 1..4u64
        invariant
            configs.len() == i - 1,
            forall|j: int|
                0 <= j < i - 1 ==> {
                    &&& (#[trigger] configs@[j]).0@ == default_stage((j + 1) as nat).0
                    &&& configs@[j].1@.len() == 1
                    &&& configs@[j].1@[0].0@ == default_stage((j + 1) as nat).1[0].0
                    &&& configs@[j].1@[0].1@ == default_stage((j + 1) as nat).1[0].1
                },
    {
        let number = decimal_string(i);
        let label_name = concat_str("lable", number.as_str());
        let mut label_config: Vec<(String, String)> = Vec::new();
        label_config.push(("label".to_string(), label_name));
        configs.push((number, label_config));
    }
    configs
}

/// A flow run for one issue.
pub struct GitFlowCommand {
    pub id: i32,
    pub command: String,
    pub config: Config,
}

/// A flow run together with the label it should bring the issue to.
pub struct FlowRequest {
    pub flow: GitFlowCommand,
    pub target_label: String,
}

/// Starts the flow for issue `id`: the issue is to be moved to stage `lable1`.
pub fn parse_flow_command(id: i32, command: String, config: Config) -> (res: FlowRequest)
    ensures
        res.flow.id == id,
        res.flow.command == command,
        res.flow.config == config,
        res.target_label@ == "lable1"@,
{
    let flow = GitFlowCommand::new(id, command, config);
    FlowRequest { flow, target_label: "lable1".to_string() }
}

/// The label stored under `key` in one stage map.
pub open spec fn lookup(m: Seq<(String, String)>, key: Seq<char>) -> Option<Seq<char>>
    decreases m.len(),
{
    if m.len() == 0 {
        None
    } else if m[0].0@ == key {
        Some(m[0].1@)
    } else {
        lookup(m.drop_first(), key)
    }
}

/// All stage keys of the flow, map after map.
pub open spec fn stage_keys(flow: Seq<Vec<(String, String)>>) -> Seq<Seq<char>>
    decreases flow.len(),
{
    if flow.len() == 0 {
        Seq::<Seq<char>>::empty()
    } else {
        stage_keys(flow.drop_last()) + flow.last()@.map_values(|p: (String, String)| p.0@)
    }
}

/// Whether every stage key reads as an `i32`.
pub open spec fn keys_parse(keys: Seq<Seq<char>>) -> bool {
    forall|i: int| 0 <= i < keys.len() ==> (#[trigger] parsed_i32(keys[i])) is Some
}

/// The numbers that the stage keys denote.
pub open spec fn key_values(keys: Seq<Seq<char>>) -> Seq<i32> {
    keys.map_values(|k: Seq<char>| parsed_i32(k).unwrap() as i32)
}

/// The order in which stage numbers are offered.
pub open spec fn stage_leq() -> spec_fn(i32, i32) -> bool {
    |a: i32, b: i32| a <= b
}

/// The labels stored under `key`, one per map that holds it, maps in order.
pub open spec fn labels_for_key(flow: Seq<Vec<(String, String)>>, key: Seq<char>) -> Seq<Seq<char>>
    decreases flow.len(),
{
    if flow.len() == 0 {
        Seq::<Seq<char>>::empty()
    } else {
        let rest = labels_for_key(flow.drop_last(), key);
        match lookup(flow.last()@, key) {
            Some(l) => rest.push(l),
            None => rest,
        }
    }
}

/// The labels for a list of stage numbers, each number written in decimal
/// to look it up.
pub open spec fn labels_for_keys(flow: Seq<Vec<(String, String)>>, ks: Seq<i32>) -> Seq<Seq<char>>
    decreases ks.len(),
{
    if ks.len() == 0 {
        Seq::<Seq<char>>::empty()
    } else {
        labels_for_keys(flow, ks.drop_last()) + labels_for_key(flow, signed_decimal(ks.last() as int))
    }
}

/// The labels offered as stages: the stage numbers in ascending order, and
/// for each the labels that the maps hold under its decimal form.
pub open spec fn choice_labels(flow: Seq<Vec<(String, String)>>) -> Seq<Seq<char>> {
    labels_for_keys(flow, key_values(stage_keys(flow)).sort_by(stage_leq()))
}

/// Whether `label` is stored under some key of some stage map.
pub open spec fn configured_label(flow: Seq<Vec<(String, String)>>, label: Seq<char>) -> bool {
    exists|i: int, j: int|
        0 <= i < flow.len() && 0 <= j < flow[i]@.len() && (#[trigger] flow[i]@[j]).1@ == label
}

proof fn lemma_lookup_stored(m: Seq<(String, String)>, key: Seq<char>)
    ensures
        lookup(m, key) matches Some(l) ==> exists|j: int| 0 <= j < m.len() && (#[trigger] m[j]).1@ == l,
    decreases m.len(),
{
    if m.len() > 0 && m[0].0@ != key {
        lemma_lookup_stored(m.drop_first(), key);
        if let Some(l) = lookup(m, key) {
            let j = choose|j: int| 0 <= j < m.drop_first().len() && (#[trigger] m.drop_first()[j]).1@ == l;
            assert(m[j + 1] == m.drop_first()[j]);
        }
    }
}

proof fn lemma_labels_for_key_configured(flow: Seq<Vec<(String, String)>>, key: Seq<char>)
    ensures
        forall|k: int|
            0 <= k < labels_for_key(flow, key).len() ==> configured_label(
                flow,
                #[trigger] labels_for_key(flow, key)[k],
            ),
    decreases flow.len(),
{
    if flow.len() > 0 {
        let init = flow.drop_last();
        lemma_labels_for_key_configured(init, key);
        lemma_lookup_stored(flow.last()@, key);
        let rest = labels_for_key(init, key);
        assert forall|k: int| 0 <= k < labels_for_key(flow, key).len() implies configured_label(
            flow,
            #[trigger] labels_for_key(flow, key)[k],
        ) by {
            let l = labels_for_key(flow, key)[k];
            if k < rest.len() {
                assert(l == rest[k]);
                assert(configured_label(init, l));
                let (i, j) = choose|i: int, j: int|
                    0 <= i < init.len() && 0 <= j < init[i]@.len() && (#[trigger] init[i]@[j]).1@ == l;
                assert(flow[i] == init[i]);
            } else {
                let m = flow.last()@;
                let j = choose|j: int| 0 <= j < m.len() && (#[trigger] m[j]).1@ == l;
                assert(flow[flow.len() - 1]@[j] == m[j]);
            }
        }
    }
}

/// Every label offered as a stage is one of the labels that the flow's
/// maps store.
pub proof fn lemma_choice_labels_configured(flow: Seq<Vec<(String, String)>>, ks: Seq<i32>)
    ensures
        forall|k: int|
            0 <= k < labels_for_keys(flow, ks).len() ==> configured_label(
                flow,
                #[trigger] labels_for_keys(flow, ks)[k],
            ),
    decreases ks.len(),
{
    if ks.len() > 0 {
        lemma_choice_labels_configured(flow, ks.drop_last());
        let key = signed_decimal(ks.last() as int);
        lemma_labels_for_key_configured(flow, key);
        let a = labels_for_keys(flow, ks.drop_last());
        let b = labels_for_key(flow, key);
        assert forall|k: int| 0 <= k < labels_for_keys(flow, ks).len() implies configured_label(
            flow,
            #[trigger] labels_for_keys(flow, ks)[k],
        ) by {
            if k < a.len() {
                assert(labels_for_keys(flow, ks)[k] == a[k]);
            } else {
                assert(labels_for_keys(flow, ks)[k] == b[k - a.len()]);
            }
        }
    }
}

proof fn lemma_stage_leq_total()
    ensures
        total_ordering(stage_leq()),
{
}

/// Looks `key` up in one stage map.
fn lookup_label(m: &Vec<(String, String)>, key: &str) -> (res: Option<String>)
    ensures
        match res {
            Some(l) => lookup(m@, key@) == Some(l@),
            None => lookup(m@, key@) is None,
        },
{
    let mut i: usize = 0;
    assert(m@.skip(0) == m@);
    while i < m.len()
        invariant
            i <= m.len(),
            lookup(m@, key@) == lookup(m@.skip(i as int), key@),
        decreases m.len() - i,
    {
        assert(m@.skip(i as int).drop_first() == m@.skip(i + 1));
        if str_eq(m[i].0.as_str(), key) {
            return Some(m[i].1.clone());
        }
        i = i + 1;
    }
    None
}

/// Parses every stage key, map after map.
fn stage_key_values(flow: &Vec<Vec<(String, String)>>) -> (res: Result<Vec<i32>, FlowError>)
    ensures
        match res {
            Ok(ks) => keys_parse(stage_keys(flow@)) && ks@ == key_values(stage_keys(flow@)),
            Err(_) => !keys_parse(stage_keys(flow@)),
        },
{
    let mut ks: Vec<i32> = Vec::new();
    for i in 0..flow.len()
        invariant
            keys_parse(stage_keys(flow@.take(i as int))),
            ks@ == key_values(stage_keys(flow@.take(i as int))),
    {
        let ghost before = stage_keys(flow@.take(i as int));
        assert(flow@.take(i + 1).drop_last() == flow@.take(i as int));
        let ghost map_keys = flow@[i as int]@.map_values(|p: (String, String)| p.0@);
        assert(stage_keys(flow@.take(i + 1)) == before + map_keys);
        let m = &flow[i];
        for j in 0..m.len()
            invariant
                i < flow@.len(),
                m@ == flow@[i as int]@,
                before == stage_keys(flow@.take(i as int)),
                stage_keys(flow@.take(i + 1)) == before + map_keys,
                map_keys == m@.map_values(|p: (String, String)| p.0@),
                keys_parse(before + map_keys.take(j as int)),
                ks@ == key_values(before + map_keys.take(j as int)),
        {
            assert((before + map_keys.take(j + 1)) == (before + map_keys.take(j as int)).push(
                map_keys[j as int],
            ));
            match parse_i32(m[j].0.as_str()) {
                Some(v) => {
                    ks.push(v);
                    assert(ks@ == key_values(before + map_keys.take(j + 1)));
                },
                None => {
                    proof {
                        let all = stage_keys(flow@);
                        let k = before.len() + j;
                        lemma_stage_keys_prefix(flow@, i + 1);
                        assert(stage_keys(flow@.take(i + 1))[k] == map_keys[j as int]);
                        assert(all[k] == map_keys[j as int]);
                        assert(parsed_i32(all[k]) is None);
                    }
                    return Err(FlowError::InvalidStageKey(m[j].0.clone()));
                },
            }
        }
        assert(map_keys.take(m.len() as int) == map_keys);
    }
    assert(flow@.take(flow.len() as int) == flow@);
    Ok(ks)
}

/// The keys of a prefix of the flow are a prefix of all keys.
proof fn lemma_stage_keys_prefix(flow: Seq<Vec<(String, String)>>, i: int)
    requires
        0 <= i <= flow.len(),
    ensures
        stage_keys(flow.take(i)).len() <= stage_keys(flow).len(),
        forall|k: int|
            0 <= k < stage_keys(flow.take(i)).len() ==> #[trigger] stage_keys(flow)[k]
                == stage_keys(flow.take(i))[k],
    decreases flow.len() - i,
{
    if i < flow.len() {
        lemma_stage_keys_prefix(flow, i + 1);
        assert(flow.take(i + 1).drop_last() == flow.take(i));
    } else {
        assert(flow.take(i) == flow);
    }
}

/// Where `x` goes in a sorted list: after every element not above it.
fn insertion_point(out: &Vec<i32>, x: i32) -> (pos: usize)
    ensures
        pos <= out.len(),
        forall|k: int| 0 <= k < pos ==> out@[k] <= x,
        pos < out.len() ==> out@[pos as int] > x,
{
    let mut pos: usize = 0;
    while pos < out.len() && out[pos] <= x
        invariant
            pos <= out.len(),
            forall|k: int| 0 <= k < pos ==> out@[k] <= x,
        decreases out.len() - pos,
    {
        pos = pos + 1;
    }
    pos
}

/// Sorts stage numbers in ascending order (insertion sort).
fn sort_stage_keys(v: Vec<i32>) -> (res: Vec<i32>)
    ensures
        res@ == v@.sort_by(stage_leq()),
{
    broadcast use vstd::seq_lib::group_to_multiset_ensures;

    let mut out: Vec<i32> = Vec::new();
    assert(out@ == v@.take(0));
    for i in 0..v.len()
        invariant
            sorted_by(out@, stage_leq()),
            out@.to_multiset() == v@.take(i as int).to_multiset(),
    {
        let x = v[i];
        let pos = insertion_point(&out, x);
        let ghost before = out@;
        out.insert(pos, x);
        proof {
            lemma_insert_multiset(before, pos as int, x);
            assert(v@.take(i + 1) == v@.take(i as int).push(x));
            v@.take(i as int).to_multiset_ensures();
            assert forall|a: int, b: int| 0 <= a < b < out@.len() implies #[trigger] (stage_leq())(
                out@[a],
                out@[b],
            ) by {
                if a > pos {
                    assert((stage_leq())(before[a - 1], before[b - 1]));
                } else if b > pos {
                    assert(out@[b] == before[b - 1]);
                    if a < pos {
                        assert((stage_leq())(before[a], before[b - 1]));
                    } else if b - 1 > pos {
                        assert((stage_leq())(before[pos as int], before[b - 1]));
                    }
                }
            }
        }
    }
    proof {
        assert(v@.take(v.len() as int) == v@);
        lemma_stage_leq_total();
        v@.lemma_sort_by_ensures(stage_leq());
        vstd::seq_lib::lemma_sorted_unique(out@, v@.sort_by(stage_leq()), stage_leq());
    }
    out
}

proof fn lemma_insert_multiset(s: Seq<i32>, pos: int, x: i32)
    requires
        0 <= pos <= s.len(),
    ensures
        s.insert(pos, x).to_multiset() == s.to_multiset().insert(x),
{
    broadcast use vstd::seq_lib::group_to_multiset_ensures;

    let a = s.subrange(0, pos);
    let b = s.subrange(pos, s.len() as int);
    assert(s == a + b);
    vstd::seq_lib::lemma_multiset_commutative(a, b);
    vstd::seq_lib::lemma_multiset_commutative(a.push(x), b);
    assert(s.insert(pos, x) == a.push(x) + b);
}

/// Lists the labels that the issue can be moved to: the stage numbers of
/// the flow in ascending order, and for each the labels the maps hold under
/// it. A key that is not a number stops the listing.
pub fn flow_choice_labels(flow: &Vec<Vec<(String, String)>>) -> (res: Result<
    Vec<String>,
    FlowError,
>)
    ensures
        match res {
            Ok(ls) => keys_parse(stage_keys(flow@)) && views(ls@) == choice_labels(flow@),
            Err(_) => !keys_parse(stage_keys(flow@)),
        },
{
    let keys = match stage_key_values(flow) {
        Ok(ks) => ks,
        Err(e) => return Err(e),
    };
    let sorted = sort_stage_keys(keys);
    let mut labels: Vec<String> = Vec::new();
    for i in 0..sorted.len()
        invariant
            views(labels@) == labels_for_keys(flow@, sorted@.take(i as int)),
    {
        let key = signed_decimal_string(sorted[i] as i64);
        let ghost before = views(labels@);
        for j in 0..flow.len()
            invariant
                key@ == signed_decimal(sorted@[i as int] as int),
                views(labels@) == before + labels_for_key(flow@.take(j as int), key@),
        {
            assert(flow@.take(j + 1).drop_last() == flow@.take(j as int));
            let ghost mid = views(labels@);
            match lookup_label(&flow[j], key.as_str()) {
                Some(l) => {
                    labels.push(l);
                    assert(views(labels@) == mid.push(l@));
                },
                None => {},
            }
        }
        assert(flow@.take(flow.len() as int) == flow@);
        assert(sorted@.take(i + 1).drop_last() == sorted@.take(i as int));
    }
    assert(sorted@.take(sorted.len() as int) == sorted@);
    Ok(labels)
}

/// What to do once the issue's labels are known.
pub enum RebasePlan {
    /// The issue already carries the target label: nothing to do.
    AlreadyLabeled,
    /// Offer these labels to choose from.
    Choose(Vec<String>),
}

/// The labels to take off after `choice` was added: those of the issue that
/// are stage labels, other than `choice`, in the issue's order.
pub open spec fn removable_labels(current: Seq<Seq<char>>, choices: Seq<Seq<char>>, choice: Seq<char>) -> Seq<
    Seq<char>,
>
    decreases current.len(),
{
    if current.len() == 0 {
        Seq::<Seq<char>>::empty()
    } else {
        let rest = removable_labels(current.drop_last(), choices, choice);
        let l = current.last();
        if choices.contains(l) && l != choice {
            rest.push(l)
        } else {
            rest
        }
    }
}

/// Moving to a stage never removes the chosen label, and only removes
/// labels that the issue carries and that are stage labels.
pub proof fn lemma_removable_labels(current: Seq<Seq<char>>, choices: Seq<Seq<char>>, choice: Seq<char>)
    ensures
        !removable_labels(current, choices, choice).contains(choice),
        forall|i: int|
            0 <= i < removable_labels(current, choices, choice).len() ==> {
                let l = #[trigger] removable_labels(current, choices, choice)[i];
                &&& current.contains(l)
                &&& choices.contains(l)
                &&& l != choice
            },
    decreases current.len(),
{
    if current.len() > 0 {
        lemma_removable_labels(current.drop_last(), choices, choice);
        let rest = removable_labels(current.drop_last(), choices, choice);
        let res = removable_labels(current, choices, choice);
        assert forall|i: int| 0 <= i < res.len() implies {
            let l = #[trigger] res[i];
            &&& current.contains(l)
            &&& choices.contains(l)
            &&& l != choice
        } by {
            if i < rest.len() {
                assert(res[i] == rest[i]);
                let j = choose|j: int| 0 <= j < current.drop_last().len() && current.drop_last()[j] == rest[i];
                assert(current[j] == rest[i]);
            } else {
                assert(res[i] == current.last());
                assert(current[current.len() - 1] == current.last());
            }
        }
    }
}

/// The labels taken off are exactly the issue's labels, in the issue's
/// order, that are stage labels other than the chosen one; in particular
/// every such label of the issue is taken off.
pub proof fn lemma_removable_labels_complete(
    current: Seq<Seq<char>>,
    choices: Seq<Seq<char>>,
    choice: Seq<char>,
)
    ensures
        removable_labels(current, choices, choice) == current.filter(
            |l: Seq<char>| choices.contains(l) && l != choice,
        ),
        forall|i: int|
            0 <= i < current.len() && choices.contains(current[i]) && current[i] != choice
                ==> removable_labels(current, choices, choice).contains(#[trigger] current[i]),
    decreases current.len(),
{
    reveal_with_fuel(Seq::filter, 1);
    if current.len() > 0 {
        lemma_removable_labels_complete(current.drop_last(), choices, choice);
        let rest = removable_labels(current.drop_last(), choices, choice);
        let res = removable_labels(current, choices, choice);
        assert forall|i: int|
            0 <= i < current.len() && choices.contains(current[i]) && current[i] != choice
                implies res.contains(#[trigger] current[i]) by {
            if i < current.len() - 1 {
                assert(current.drop_last()[i] == current[i]);
                assert(rest.contains(current[i]));
                let k = choose|k: int| 0 <= k < rest.len() && rest[k] == current[i];
                assert(res[k] == rest[k]);
            } else {
                assert(res[res.len() - 1] == current.last());
            }
        }
    }
}

/// The command that lists an issue's labels.
pub open spec fn labels_command_text(id: i32) -> Seq<char> {
    "gh issue view "@ + signed_decimal(id as int) + " --json labels"@
}

/// The command that adds a label to an issue.
pub open spec fn add_label_command_text(id: i32, label: Seq<char>) -> Seq<char> {
    "gh issue edit "@ + signed_decimal(id as int) + " --add-label "@ + label
}

/// The command that removes a label from an issue.
pub open spec fn remove_label_command_text(id: i32, label: Seq<char>) -> Seq<char> {
    "gh issue edit "@ + signed_decimal(id as int) + " --remove-label "@ + label
}

/// The removal commands for a list of labels.
pub open spec fn remove_commands(id: i32, labels: Seq<Seq<char>>) -> Seq<Seq<char>> {
    labels.map_values(|l: Seq<char>| remove_label_command_text(id, l))
}

impl GitFlowCommand {
    /// A flow run for issue `issue_id`, under `config`.
    pub fn new(issue_id: i32, command: String, config: Config) -> (res: GitFlowCommand)
        ensures
            res.id == issue_id,
            res.command == command,
            res.config == config,
    {
        GitFlowCommand { id: issue_id, command: command, config: config }
    }

    /// The `gh` command that lists the issue's labels.
    pub fn labels_command(&self) -> (res: String)
        ensures
            res@ == labels_command_text(self.id),
    {
        let id = signed_decimal_string(self.id as i64);
        let head = concat_str("gh issue view ", id.as_str());
        concat_str(head.as_str(), " --json labels")
    }

    /// Decides, from the issue's current labels, whether it is already at
    /// `target_label`, and otherwise which stage labels to offer.
    pub fn rebase_plan(&self, current_labels: &Vec<String>, target_label: &str) -> (res: Result<
        RebasePlan,
        FlowError,
    >)
        ensures
            views(current_labels@).contains(target_label@) ==> res matches Ok(
                RebasePlan::AlreadyLabeled,
            ),
            !views(current_labels@).contains(target_label@) ==> match res {
                Ok(RebasePlan::Choose(ls)) => keys_parse(stage_keys(self.config.git_flow@))
                    && views(ls@) == choice_labels(self.config.git_flow@),
                Ok(RebasePlan::AlreadyLabeled) => false,
                Err(_) => !keys_parse(stage_keys(self.config.git_flow@)),
            },
    {
        if contains_string(current_labels, target_label) {
            return Ok(RebasePlan::AlreadyLabeled);
        }
        match flow_choice_labels(&self.config.git_flow) {
            Ok(ls) => Ok(RebasePlan::Choose(ls)),
            Err(e) => Err(e),
        }
    }

    /// The commands that move the issue to `choice`: add it, then remove
    /// every other stage label that the issue carries.
    pub fn switch_commands(&self, current_labels: &Vec<String>, choices: &Vec<String>, choice: &str) -> (res:
        Vec<String>)
        ensures
            views(res@) == seq![add_label_command_text(self.id, choice@)] + remove_commands(
                self.id,
                removable_labels(views(current_labels@), views(choices@), choice@),
            ),
    {
        let id = signed_decimal_string(self.id as i64);
        let add_head = concat_str("gh issue edit ", id.as_str());
        let add_mid = concat_str(add_head.as_str(), " --add-label ");
        let add = concat_str(add_mid.as_str(), choice);
        let mut res: Vec<String> = Vec::new();
        res.push(add);
        let ghost first = views(res@);
        for i in 0..current_labels.len()
            invariant
                id@ == signed_decimal(self.id as int),
                first == seq![add_label_command_text(self.id, choice@)],
                views(res@) == first + remove_commands(
                    self.id,
                    removable_labels(views(current_labels@).take(i as int), views(choices@), choice@),
                ),
        {
            let label = &current_labels[i];
            let ghost cur = views(current_labels@);
            assert(cur.take(i + 1).drop_last() == cur.take(i as int));
            assert(cur.take(i + 1).last() == label@);
            let ghost before = views(res@);
            if contains_string(choices, label.as_str()) && !str_eq(label.as_str(), choice) {
                let rm_head = concat_str("gh issue edit ", id.as_str());
                let rm_mid = concat_str(rm_head.as_str(), " --remove-label ");
                let rm = concat_str(rm_mid.as_str(), label.as_str());
                res.push(rm);
                assert(views(res@) == before.push(rm@));
            }
        }
        assert(views(current_labels@).take(current_labels.len() as int) == views(current_labels@));
        res
    }
}

} // verus!
