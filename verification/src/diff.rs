//! Field-by-field change reports between two configurations.

use vstd::prelude::*;
use crate::config::{Config, ConfigView, Interface, Transport};
use crate::text::{clone_opt, opt_eq, strings_eq};

verus! {

/// One changed field: its name, and its old and new values as text.
#[derive(Clone, Debug, PartialEq, Eq)]
pub struct ConfigDiff {
    pub path: String,
    pub old_value: Option<String>,
    pub new_value: Option<String>,
}

/// The mathematical value of a [`ConfigDiff`].
pub struct DiffView {
    pub path: Seq<char>,
    pub old_value: Option<Seq<char>>,
    pub new_value: Option<Seq<char>>,
}

impl View for ConfigDiff {
    type V = DiffView;

    open spec fn view(&self) -> DiffView {
        DiffView {
            path: self.path@,
            old_value: self.old_value.deep_view(),
            new_value: self.new_value.deep_view(),
        }
    }
}

/// The values of a sequence of change records.
pub open spec fn diff_views(v: Seq<ConfigDiff>) -> Seq<DiffView> {
    v.map_values(|d: ConfigDiff| d@)
}

/// What std's `{:?}` formatting writes for a list of strings.
pub uninterp spec fn debug_list_text(items: Seq<Seq<char>>) -> Seq<char>;

/// Calls std's `Debug` formatting (`format!("{:?}", ..)`) on a list of
/// strings. The contract only names the result: it is a function of the
/// list's contents; the layout std writes is not stated.
#[verifier::external_body]
fn debug_list(items: &Vec<String>) -> (r: String)
    ensures
        r@ == debug_list_text(items.deep_view()),
{
    format!("{:?}", items)
}

/// The name `{:?}` gives an interface.
pub open spec fn interface_text(i: Interface) -> Seq<char> {
    match i {
        Interface::Cli => "Cli"@,
        Interface::Api => "Api"@,
        Interface::Embedded => "Embedded"@,
        Interface::A2a => "A2a"@,
    }
}

/// The name `{:?}` gives a transport.
pub open spec fn transport_text(t: Transport) -> Seq<char> {
    match t {
        Transport::InProcess => "InProcess"@,
        Transport::Unix => "Unix"@,
        Transport::Tcp => "Tcp"@,
    }
}

/// The text a flag is written as.
pub open spec fn flag_text(b: bool) -> Seq<char> {
    if b {
        "true"@
    } else {
        "false"@
    }
}

/// A change record for a text field whose old and new texts differ.
pub open spec fn text_change(path: Seq<char>, a: Seq<char>, b: Seq<char>) -> Seq<DiffView> {
    if a != b {
        seq![DiffView { path, old_value: Some(a), new_value: Some(b) }]
    } else {
        Seq::empty()
    }
}

/// A list as it is shown in a change record: absent when empty.
pub open spec fn list_shown(a: Seq<Seq<char>>) -> Option<Seq<char>> {
    if a.len() == 0 {
        None
    } else {
        Some(debug_list_text(a))
    }
}

/// A change record for a list field whose old and new lists differ.
pub open spec fn list_change(path: Seq<char>, a: Seq<Seq<char>>, b: Seq<Seq<char>>) -> Seq<DiffView> {
    if a != b {
        seq![DiffView { path, old_value: list_shown(a), new_value: list_shown(b) }]
    } else {
        Seq::empty()
    }
}

/// A change record for an optional text field whose values differ.
pub open spec fn opt_change(path: Seq<char>, a: Option<Seq<char>>, b: Option<Seq<char>>) -> Seq<DiffView> {
    if a != b {
        seq![DiffView { path, old_value: a, new_value: b }]
    } else {
        Seq::empty()
    }
}

/// The change records between two configurations, one per changed field,
/// in the order of the fields.
pub open spec fn config_diffs(old: ConfigView, new: ConfigView) -> Seq<DiffView> {
    text_change("agent_name"@, old.agent_name, new.agent_name)
        + text_change("model"@, old.model, new.model)
        + list_change("capabilities"@, old.capabilities, new.capabilities)
        + list_change("modules"@, old.modules, new.modules)
        + text_change("interface"@, interface_text(old.interface), interface_text(new.interface))
        + text_change("fleet_enabled"@, flag_text(old.fleet_enabled), flag_text(new.fleet_enabled))
        + opt_change("fleet_bootstrap"@, old.fleet_bootstrap, new.fleet_bootstrap)
        + text_change("policy_enabled"@, flag_text(old.policy_enabled), flag_text(new.policy_enabled))
        + text_change("policy_strict"@, flag_text(old.policy_strict), flag_text(new.policy_strict))
        + list_change("sense_modules"@, old.sense_modules, new.sense_modules)
        + text_change("transport"@, transport_text(old.transport), transport_text(new.transport))
        + text_change("log_level"@, old.log_level, new.log_level)
        + opt_change("log_file"@, old.log_file, new.log_file)
        + text_change("workspace_path"@, old.workspace_path, new.workspace_path)
        + text_change("data_path"@, old.data_path, new.data_path)
}

fn interface_name(i: Interface) -> (s: String)
    ensures
        s@ == interface_text(i),
{
    match i {
        Interface::Cli => String::from_str("Cli"),
        Interface::Api => String::from_str("Api"),
        Interface::Embedded => String::from_str("Embedded"),
        Interface::A2a => String::from_str("A2a"),
    }
}

fn transport_name(t: Transport) -> (s: String)
    ensures
        s@ == transport_text(t),
{
    match t {
        Transport::InProcess => String::from_str("InProcess"),
        Transport::Unix => String::from_str("Unix"),
        Transport::Tcp => String::from_str("Tcp"),
    }
}

fn flag_name(b: bool) -> (s: String)
    ensures
        s@ == flag_text(b),
{
    if b {
        String::from_str("true")
    } else {
        String::from_str("false")
    }
}

fn push_record(diffs: &mut Vec<ConfigDiff>, d: ConfigDiff)
    ensures
        diff_views(final(diffs)@) == diff_views(old(diffs)@).push(d@),
{
    let ghost dv = d@;
    diffs.push(d);
    assert(diff_views(diffs@) =~= diff_views(old(diffs)@).push(dv));
}

fn add_text_change(diffs: &mut Vec<ConfigDiff>, path: &str, a: String, b: String)
    ensures
        diff_views(final(diffs)@) == diff_views(old(diffs)@) + text_change(path@, a@, b@),
{
    if a != b {
        push_record(diffs, ConfigDiff { path: path.to_owned(), old_value: Some(a), new_value: Some(b) });
    }
    assert(diff_views(diffs@) =~= diff_views(old(diffs)@) + text_change(path@, a@, b@));
}

fn shown_list(v: &Vec<String>) -> (r: Option<String>)
    ensures
        r.deep_view() == list_shown(v.deep_view()),
{
    if v.len() == 0 {
        None
    } else {
        Some(debug_list(v))
    }
}

fn add_list_change(diffs: &mut Vec<ConfigDiff>, path: &str, a: &Vec<String>, b: &Vec<String>)
    ensures
        diff_views(final(diffs)@) == diff_views(old(diffs)@) + list_change(
            path@,
            a.deep_view(),
            b.deep_view(),
        ),
{
    if !strings_eq(a, b) {
        push_record(
            diffs,
            ConfigDiff { path: path.to_owned(), old_value: shown_list(a), new_value: shown_list(b) },
        );
    }
    assert(diff_views(diffs@) =~= diff_views(old(diffs)@) + list_change(
        path@,
        a.deep_view(),
        b.deep_view(),
    ));
}

fn add_opt_change(diffs: &mut Vec<ConfigDiff>, path: &str, a: &Option<String>, b: &Option<String>)
    ensures
        diff_views(final(diffs)@) == diff_views(old(diffs)@) + opt_change(
            path@,
            a.deep_view(),
            b.deep_view(),
        ),
{
    if !opt_eq(a, b) {
        push_record(
            diffs,
            ConfigDiff { path: path.to_owned(), old_value: clone_opt(a), new_value: clone_opt(b) },
        );
    }
    assert(diff_views(diffs@) =~= diff_views(old(diffs)@) + opt_change(
        path@,
        a.deep_view(),
        b.deep_view(),
    ));
}

/// The fields that differ between `old` and `new`, in field order, each
/// with its old and new value written as text.
pub fn diff_configs(old: &Config, new: &Config) -> (diffs: Vec<ConfigDiff>)
    ensures
        diff_views(diffs@) == config_diffs(old@, new@),
        forall|i: int|
            0 <= i < diffs.len() ==> (#[trigger] diffs@[i])@.old_value == field_text(old@, diffs@[i]@.path)
                && diffs@[i]@.new_value == field_text(new@, diffs@[i]@.path),
{
    proof {
        lemma_records_show_fields(old@, new@);
    }
    let mut diffs: Vec<ConfigDiff> = Vec::new();
    assert(diff_views(diffs@) =~= Seq::<DiffView>::empty());
    add_text_change(&mut diffs, "agent_name", old.agent_name.clone(), new.agent_name.clone());
    add_text_change(&mut diffs, "model", old.model.clone(), new.model.clone());
    add_list_change(&mut diffs, "capabilities", &old.capabilities, &new.capabilities);
    add_list_change(&mut diffs, "modules", &old.modules, &new.modules);
    add_text_change(&mut diffs, "interface", interface_name(old.interface), interface_name(new.interface));
    add_text_change(&mut diffs, "fleet_enabled", flag_name(old.fleet_enabled), flag_name(new.fleet_enabled));
    add_opt_change(&mut diffs, "fleet_bootstrap", &old.fleet_bootstrap, &new.fleet_bootstrap);
    add_text_change(&mut diffs, "policy_enabled", flag_name(old.policy_enabled), flag_name(new.policy_enabled));
    add_text_change(&mut diffs, "policy_strict", flag_name(old.policy_strict), flag_name(new.policy_strict));
    add_list_change(&mut diffs, "sense_modules", &old.sense_modules, &new.sense_modules);
    add_text_change(&mut diffs, "transport", transport_name(old.transport), transport_name(new.transport));
    add_text_change(&mut diffs, "log_level", old.log_level.clone(), new.log_level.clone());
    add_opt_change(&mut diffs, "log_file", &old.log_file, &new.log_file);
    add_text_change(&mut diffs, "workspace_path", old.workspace_path.clone(), new.workspace_path.clone());
    add_text_change(&mut diffs, "data_path", old.data_path.clone(), new.data_path.clone());
    assert(diff_views(diffs@) =~= config_diffs(old@, new@));
    assert forall|i: int| 0 <= i < diffs.len() implies (#[trigger] diffs@[i])@.old_value == field_text(
        old@,
        diffs@[i]@.path,
    ) && diffs@[i]@.new_value == field_text(new@, diffs@[i]@.path) by {
        assert(diff_views(diffs@)[i] == diffs@[i]@);
    }
    diffs
}

} // verus!

verus! {

proof fn lemma_interface_text_injective(i: Interface, j: Interface)
    requires
        interface_text(i) == interface_text(j),
    ensures
        i == j,
{
    reveal_strlit("Cli");
    reveal_strlit("Api");
    reveal_strlit("Embedded");
    reveal_strlit("A2a");
    assert("Cli"@[0] == 'C' && "Api"@[0] == 'A' && "A2a"@[0] == 'A');
    assert("Api"@[1] == 'p' && "A2a"@[1] == '2');
    assert("Cli"@.len() == 3 && "Api"@.len() == 3 && "A2a"@.len() == 3 && "Embedded"@.len() == 8);
}

proof fn lemma_transport_text_injective(i: Transport, j: Transport)
    requires
        transport_text(i) == transport_text(j),
    ensures
        i == j,
{
    reveal_strlit("InProcess");
    reveal_strlit("Unix");
    reveal_strlit("Tcp");
    assert("InProcess"@.len() == 9 && "Unix"@.len() == 4 && "Tcp"@.len() == 3);
}

proof fn lemma_flag_text_injective(a: bool, b: bool)
    requires
        flag_text(a) == flag_text(b),
    ensures
        a == b,
{
    reveal_strlit("true");
    reveal_strlit("false");
    assert("true"@.len() == 4 && "false"@.len() == 5);
}

/// Two configurations give no change records exactly when they are equal.
pub proof fn lemma_no_diffs_iff_equal(a: ConfigView, b: ConfigView)
    ensures
        config_diffs(a, b).len() == 0 <==> a == b,
{
    if config_diffs(a, b).len() == 0 {
        if interface_text(a.interface) == interface_text(b.interface) {
            lemma_interface_text_injective(a.interface, b.interface);
        }
        if transport_text(a.transport) == transport_text(b.transport) {
            lemma_transport_text_injective(a.transport, b.transport);
        }
        if flag_text(a.fleet_enabled) == flag_text(b.fleet_enabled) {
            lemma_flag_text_injective(a.fleet_enabled, b.fleet_enabled);
        }
        if flag_text(a.policy_enabled) == flag_text(b.policy_enabled) {
            lemma_flag_text_injective(a.policy_enabled, b.policy_enabled);
        }
        if flag_text(a.policy_strict) == flag_text(b.policy_strict) {
            lemma_flag_text_injective(a.policy_strict, b.policy_strict);
        }
    }
}

/// A change record with its old and new values exchanged.
pub open spec fn reversed(d: DiffView) -> DiffView {
    DiffView { path: d.path, old_value: d.new_value, new_value: d.old_value }
}

proof fn lemma_reverse_concat(x: Seq<DiffView>, y: Seq<DiffView>)
    ensures
        (x + y).map_values(|d: DiffView| reversed(d)) == x.map_values(|d: DiffView| reversed(d))
            + y.map_values(|d: DiffView| reversed(d)),
{
    assert((x + y).map_values(|d: DiffView| reversed(d)) =~= x.map_values(|d: DiffView| reversed(d))
        + y.map_values(|d: DiffView| reversed(d)));
}

proof fn lemma_reverse_text(p: Seq<char>, a: Seq<char>, b: Seq<char>)
    ensures
        text_change(p, b, a) == text_change(p, a, b).map_values(|d: DiffView| reversed(d)),
{
    assert(text_change(p, b, a) =~= text_change(p, a, b).map_values(|d: DiffView| reversed(d)));
}

proof fn lemma_reverse_list(p: Seq<char>, a: Seq<Seq<char>>, b: Seq<Seq<char>>)
    ensures
        list_change(p, b, a) == list_change(p, a, b).map_values(|d: DiffView| reversed(d)),
{
    assert(list_change(p, b, a) =~= list_change(p, a, b).map_values(|d: DiffView| reversed(d)));
}

proof fn lemma_reverse_opt(p: Seq<char>, a: Option<Seq<char>>, b: Option<Seq<char>>)
    ensures
        opt_change(p, b, a) == opt_change(p, a, b).map_values(|d: DiffView| reversed(d)),
{
    assert(opt_change(p, b, a) =~= opt_change(p, a, b).map_values(|d: DiffView| reversed(d)));
}

/// Comparing in the other direction gives the same records, in the same
/// order, with old and new values exchanged.
pub proof fn lemma_diffs_reverse(a: ConfigView, b: ConfigView)
    ensures
        config_diffs(b, a) == config_diffs(a, b).map_values(|d: DiffView| reversed(d)),
{
    let p1 = text_change("agent_name"@, a.agent_name, b.agent_name);
    let p2 = text_change("model"@, a.model, b.model);
    let p3 = list_change("capabilities"@, a.capabilities, b.capabilities);
    let p4 = list_change("modules"@, a.modules, b.modules);
    let p5 = text_change("interface"@, interface_text(a.interface), interface_text(b.interface));
    let p6 = text_change("fleet_enabled"@, flag_text(a.fleet_enabled), flag_text(b.fleet_enabled));
    let p7 = opt_change("fleet_bootstrap"@, a.fleet_bootstrap, b.fleet_bootstrap);
    let p8 = text_change("policy_enabled"@, flag_text(a.policy_enabled), flag_text(b.policy_enabled));
    let p9 = text_change("policy_strict"@, flag_text(a.policy_strict), flag_text(b.policy_strict));
    let p10 = list_change("sense_modules"@, a.sense_modules, b.sense_modules);
    let p11 = text_change("transport"@, transport_text(a.transport), transport_text(b.transport));
    let p12 = text_change("log_level"@, a.log_level, b.log_level);
    let p13 = opt_change("log_file"@, a.log_file, b.log_file);
    let p14 = text_change("workspace_path"@, a.workspace_path, b.workspace_path);
    let p15 = text_change("data_path"@, a.data_path, b.data_path);
    lemma_reverse_text("agent_name"@, a.agent_name, b.agent_name);
    lemma_reverse_text("model"@, a.model, b.model);
    lemma_reverse_list("capabilities"@, a.capabilities, b.capabilities);
    lemma_reverse_list("modules"@, a.modules, b.modules);
    lemma_reverse_text("interface"@, interface_text(a.interface), interface_text(b.interface));
    lemma_reverse_text("fleet_enabled"@, flag_text(a.fleet_enabled), flag_text(b.fleet_enabled));
    lemma_reverse_opt("fleet_bootstrap"@, a.fleet_bootstrap, b.fleet_bootstrap);
    lemma_reverse_text("policy_enabled"@, flag_text(a.policy_enabled), flag_text(b.policy_enabled));
    lemma_reverse_text("policy_strict"@, flag_text(a.policy_strict), flag_text(b.policy_strict));
    lemma_reverse_list("sense_modules"@, a.sense_modules, b.sense_modules);
    lemma_reverse_text("transport"@, transport_text(a.transport), transport_text(b.transport));
    lemma_reverse_text("log_level"@, a.log_level, b.log_level);
    lemma_reverse_opt("log_file"@, a.log_file, b.log_file);
    lemma_reverse_text("workspace_path"@, a.workspace_path, b.workspace_path);
    lemma_reverse_text("data_path"@, a.data_path, b.data_path);
    let x2 = p1 + p2;
    let x3 = x2 + p3;
    let x4 = x3 + p4;
    let x5 = x4 + p5;
    let x6 = x5 + p6;
    let x7 = x6 + p7;
    let x8 = x7 + p8;
    let x9 = x8 + p9;
    let x10 = x9 + p10;
    let x11 = x10 + p11;
    let x12 = x11 + p12;
    let x13 = x12 + p13;
    let x14 = x13 + p14;
    lemma_reverse_concat(p1, p2);
    lemma_reverse_concat(x2, p3);
    lemma_reverse_concat(x3, p4);
    lemma_reverse_concat(x4, p5);
    lemma_reverse_concat(x5, p6);
    lemma_reverse_concat(x6, p7);
    lemma_reverse_concat(x7, p8);
    lemma_reverse_concat(x8, p9);
    lemma_reverse_concat(x9, p10);
    lemma_reverse_concat(x10, p11);
    lemma_reverse_concat(x11, p12);
    lemma_reverse_concat(x12, p13);
    lemma_reverse_concat(x13, p14);
    lemma_reverse_concat(x14, p15);
}

} // verus!

verus! {

/// The value of the field called `path` in `c`, written as a change record
/// writes it (an empty list as nothing); nothing for a name that is not a
/// field.
pub open spec fn field_text(c: ConfigView, path: Seq<char>) -> Option<Seq<char>> {
    if path == "agent_name"@ {
        Some(c.agent_name)
    } else if path == "model"@ {
        Some(c.model)
    } else if path == "capabilities"@ {
        if c.capabilities.len() == 0 {
            None
        } else {
            Some(debug_list_text(c.capabilities))
        }
    } else if path == "modules"@ {
        if c.modules.len() == 0 {
            None
        } else {
            Some(debug_list_text(c.modules))
        }
    } else if path == "interface"@ {
        Some(interface_text(c.interface))
    } else if path == "fleet_enabled"@ {
        Some(flag_text(c.fleet_enabled))
    } else if path == "fleet_bootstrap"@ {
        c.fleet_bootstrap
    } else if path == "policy_enabled"@ {
        Some(flag_text(c.policy_enabled))
    } else if path == "policy_strict"@ {
        Some(flag_text(c.policy_strict))
    } else if path == "sense_modules"@ {
        if c.sense_modules.len() == 0 {
            None
        } else {
            Some(debug_list_text(c.sense_modules))
        }
    } else if path == "transport"@ {
        Some(transport_text(c.transport))
    } else if path == "log_level"@ {
        Some(c.log_level)
    } else if path == "log_file"@ {
        c.log_file
    } else if path == "workspace_path"@ {
        Some(c.workspace_path)
    } else if path == "data_path"@ {
        Some(c.data_path)
    } else {
        None
    }
}

/// Every record of `s` carries, as its old value, the field it names in
/// `a` and, as its new value, that field in `b`.
pub open spec fn records_show(a: ConfigView, b: ConfigView, s: Seq<DiffView>) -> bool {
    forall|i: int|
        0 <= i < s.len() ==> (#[trigger] s[i]).old_value == field_text(a, s[i].path) && s[i].new_value
            == field_text(b, s[i].path)
}

proof fn lemma_field_names_distinct()
    ensures
        "agent_name"@.len() == 10,
        "model"@.len() == 5,
        "capabilities"@.len() == 12,
        "modules"@.len() == 7,
        "interface"@.len() == 9 && "interface"@[0] == 'i',
        "fleet_enabled"@.len() == 13 && "fleet_enabled"@[0] == 'f',
        "fleet_bootstrap"@.len() == 15,
        "policy_enabled"@.len() == 14 && "policy_enabled"@[0] == 'p',
        "policy_strict"@.len() == 13 && "policy_strict"@[0] == 'p',
        "sense_modules"@.len() == 13 && "sense_modules"@[0] == 's',
        "transport"@.len() == 9 && "transport"@[0] == 't',
        "log_level"@.len() == 9 && "log_level"@[0] == 'l',
        "log_file"@.len() == 8,
        "workspace_path"@.len() == 14 && "workspace_path"@[0] == 'w',
        "data_path"@.len() == 9 && "data_path"@[0] == 'd',
{
    reveal_strlit("agent_name");
    reveal_strlit("model");
    reveal_strlit("capabilities");
    reveal_strlit("modules");
    reveal_strlit("interface");
    reveal_strlit("fleet_enabled");
    reveal_strlit("fleet_bootstrap");
    reveal_strlit("policy_enabled");
    reveal_strlit("policy_strict");
    reveal_strlit("sense_modules");
    reveal_strlit("transport");
    reveal_strlit("log_level");
    reveal_strlit("log_file");
    reveal_strlit("workspace_path");
    reveal_strlit("data_path");
}

proof fn lemma_records_show_concat(a: ConfigView, b: ConfigView, x: Seq<DiffView>, y: Seq<DiffView>)
    requires
        records_show(a, b, x),
        records_show(a, b, y),
    ensures
        records_show(a, b, x + y),
{
    assert forall|i: int| 0 <= i < (x + y).len() implies (#[trigger] (x + y)[i]).old_value == field_text(
        a,
        (x + y)[i].path,
    ) && (x + y)[i].new_value == field_text(b, (x + y)[i].path) by {
        if i < x.len() {
            assert((x + y)[i] == x[i]);
        } else {
            assert((x + y)[i] == y[i - x.len()]);
        }
    }
}

/// Each change record carries the changed field's value in the old
/// configuration as its old value and in the new one as its new value.
pub proof fn lemma_records_show_fields(a: ConfigView, b: ConfigView)
    ensures
        records_show(a, b, config_diffs(a, b)),
{
    lemma_field_names_distinct();
    let p1 = text_change("agent_name"@, a.agent_name, b.agent_name);
    let p2 = text_change("model"@, a.model, b.model);
    let p3 = list_change("capabilities"@, a.capabilities, b.capabilities);
    let p4 = list_change("modules"@, a.modules, b.modules);
    let p5 = text_change("interface"@, interface_text(a.interface), interface_text(b.interface));
    let p6 = text_change("fleet_enabled"@, flag_text(a.fleet_enabled), flag_text(b.fleet_enabled));
    let p7 = opt_change("fleet_bootstrap"@, a.fleet_bootstrap, b.fleet_bootstrap);
    let p8 = text_change("policy_enabled"@, flag_text(a.policy_enabled), flag_text(b.policy_enabled));
    let p9 = text_change("policy_strict"@, flag_text(a.policy_strict), flag_text(b.policy_strict));
    let p10 = list_change("sense_modules"@, a.sense_modules, b.sense_modules);
    let p11 = text_change("transport"@, transport_text(a.transport), transport_text(b.transport));
    let p12 = text_change("log_level"@, a.log_level, b.log_level);
    let p13 = opt_change("log_file"@, a.log_file, b.log_file);
    let p14 = text_change("workspace_path"@, a.workspace_path, b.workspace_path);
    let p15 = text_change("data_path"@, a.data_path, b.data_path);
    assert(records_show(a, b, p1));
    assert(records_show(a, b, p2));
    assert(records_show(a, b, p3));
    assert(records_show(a, b, p4));
    assert(records_show(a, b, p5));
    assert(records_show(a, b, p6));
    assert(records_show(a, b, p7));
    assert(records_show(a, b, p8));
    assert(records_show(a, b, p9));
    assert(records_show(a, b, p10));
    assert(records_show(a, b, p11));
    assert(records_show(a, b, p12));
    assert(records_show(a, b, p13));
    assert(records_show(a, b, p14));
    assert(records_show(a, b, p15));
    let x2 = p1 + p2;
    let x3 = x2 + p3;
    let x4 = x3 + p4;
    let x5 = x4 + p5;
    let x6 = x5 + p6;
    let x7 = x6 + p7;
    let x8 = x7 + p8;
    let x9 = x8 + p9;
    let x10 = x9 + p10;
    let x11 = x10 + p11;
    let x12 = x11 + p12;
    let x13 = x12 + p13;
    let x14 = x13 + p14;
    lemma_records_show_concat(a, b, p1, p2);
    lemma_records_show_concat(a, b, x2, p3);
    lemma_records_show_concat(a, b, x3, p4);
    lemma_records_show_concat(a, b, x4, p5);
    lemma_records_show_concat(a, b, x5, p6);
    lemma_records_show_concat(a, b, x6, p7);
    lemma_records_show_concat(a, b, x7, p8);
    lemma_records_show_concat(a, b, x8, p9);
    lemma_records_show_concat(a, b, x9, p10);
    lemma_records_show_concat(a, b, x10, p11);
    lemma_records_show_concat(a, b, x11, p12);
    lemma_records_show_concat(a, b, x12, p13);
    lemma_records_show_concat(a, b, x13, p14);
    lemma_records_show_concat(a, b, x14, p15);
}

} // verus!
