//! The policy configuration: which kinds are excluded or defined, which
//! resources are known or available, and the ageing thresholds of unit tests.
use vstd::prelude::*;
use vstd::seq_lib::lemma_seq_contains_after_push;

use crate::text::{
    chars_of, contains_ignore_case, no_duplicates, eq_ignore_case, eq_ignore_case_chars, split_chars, split_on,
    string_of, views,
};
use crate::unit_age::{setting_days, UnitAge, DEFAULT_MAX_AGE_DAYS, DEFAULT_SKIP_WINDOW_DAYS};

verus! {

/// The resolved configuration. It is built once and only read afterwards.
#[derive(Debug)]
pub struct Config {
    /// Kinds of tests not to run, compared up to ASCII case.
    pub excluded_kinds: Vec<String>,
    /// Kinds of tests that may be declared; empty means every kind.
    pub defined_kinds: Vec<String>,
    /// Resources that may be named; empty means every resource.
    pub known_resources: Vec<String>,
    /// Resources present where the tests run.
    pub available_resources: Vec<String>,
    /// Ageing thresholds of unit tests.
    pub unit_age: UnitAge,
}

/// `s` without its `' '` characters.
pub open spec fn remove_spaces(s: Seq<char>) -> Seq<char>
    decreases s.len(),
{
    if s.len() == 0 {
        s
    } else {
        let prev = remove_spaces(s.drop_last());
        if s.last() == ' ' {
            prev
        } else {
            prev.push(s.last())
        }
    }
}

/// The pieces with their spaces removed, leaving out those that end up empty.
pub open spec fn setting_items(parts: Seq<Seq<char>>) -> Seq<Seq<char>>
    decreases parts.len(),
{
    if parts.len() == 0 {
        Seq::empty()
    } else {
        let prev = setting_items(parts.drop_last());
        let item = remove_spaces(parts.last());
        if item.len() == 0 {
            prev
        } else {
            prev.push(item)
        }
    }
}

/// The names of a comma-separated list setting.
pub open spec fn setting_list(text: Seq<char>) -> Seq<Seq<char>> {
    setting_items(split_on(text, ','))
}

/// The items of `requested` that `available` does not hold, each once, in
/// the order of their first request.
pub open spec fn missing(requested: Seq<Seq<char>>, available: Seq<Seq<char>>) -> Seq<Seq<char>>
    decreases requested.len(),
{
    if requested.len() == 0 {
        Seq::empty()
    } else {
        let prev = missing(requested.drop_last(), available);
        if available.contains(requested.last()) || prev.contains(requested.last()) {
            prev
        } else {
            prev.push(requested.last())
        }
    }
}

/// The missing resources hold no name twice.
pub proof fn lemma_missing_no_duplicates(requested: Seq<Seq<char>>, available: Seq<Seq<char>>)
    ensures
        no_duplicates(missing(requested, available)),
    decreases requested.len(),
{
    if requested.len() > 0 {
        let prev = missing(requested.drop_last(), available);
        lemma_missing_no_duplicates(requested.drop_last(), available);
        let last = requested.last();
        if !(available.contains(last) || prev.contains(last)) {
            let m = prev.push(last);
            assert forall|i: int, j: int| 0 <= i < j < m.len() implies m[i] != m[j] by {
                if j == prev.len() {
                    if m[i] == m[j] {
                        assert(prev.contains(last));
                    }
                }
            }
        }
    }
}

/// The missing resources are exactly the requested ones that are not available.
pub proof fn lemma_missing_is_difference(
    requested: Seq<Seq<char>>,
    available: Seq<Seq<char>>,
    x: Seq<char>,
)
    ensures
        missing(requested, available).contains(x) <==> (requested.contains(x)
            && !available.contains(x)),
    decreases requested.len(),
{
    if requested.len() > 0 {
        let prev = requested.drop_last();
        let last = requested.last();
        lemma_missing_is_difference(prev, available, x);
        assert(requested == prev.push(last));
        lemma_seq_contains_after_push(prev, last, x);
        lemma_seq_contains_after_push(missing(prev, available), last, x);
        if missing(prev, available).contains(last) {
            lemma_missing_is_difference(prev, available, last);
        }
    }
}

/// A kind is defined where no kind is listed, or where it is listed up to ASCII case.
pub open spec fn kind_defined(config: Config, kind: Seq<char>) -> bool {
    config.defined_kinds@.len() == 0 || contains_ignore_case(views(config.defined_kinds@), kind)
}

/// A resource is known where none is listed, or where it is listed up to ASCII case.
pub open spec fn resource_known(config: Config, resource: Seq<char>) -> bool {
    config.known_resources@.len() == 0 || contains_ignore_case(
        views(config.known_resources@),
        resource,
    )
}

/// A kind is excluded where it is listed up to ASCII case.
pub open spec fn kind_excluded(config: Config, kind: Seq<char>) -> bool {
    contains_ignore_case(views(config.excluded_kinds@), kind)
}

fn remove_spaces_chars(s: &Vec<char>) -> (r: Vec<char>)
    ensures
        r@ == remove_spaces(s@),
{
    let mut r: Vec<char> = Vec::new();
    let mut i: usize = 0;
    while i < s.len()
        invariant
            i <= s@.len(),
            r@ == remove_spaces(s@.take(i as int)),
        decreases s@.len() - i,
    {
        assert(s@.take(i + 1).drop_last() == s@.take(i as int));
        if s[i] != ' ' {
            r.push(s[i]);
        }
        i = i + 1;
    }
    assert(s@.take(s@.len() as int) == s@);
    r
}

/// The names of a comma-separated list setting: spaces are removed from
/// each item, and items left empty are dropped.
pub fn read_setting_list(text: &str) -> (r: Vec<String>)
    ensures
        views(r@) == setting_list(text@),
{
    let chars = chars_of(text);
    let parts = split_chars(&chars, ',');
    let ghost pv = parts@.map_values(|v: Vec<char>| v@);
    let mut r: Vec<String> = Vec::new();
    let mut i: usize = 0;
    while i < parts.len()
        invariant
            i <= parts@.len(),
            pv == parts@.map_values(|v: Vec<char>| v@),
            views(r@) == setting_items(pv.take(i as int)),
        decreases parts@.len() - i,
    {
        assert(pv.take(i + 1).drop_last() == pv.take(i as int));
        let item = remove_spaces_chars(&parts[i]);
        if item.len() > 0 {
            let ghost before = r@;
            r.push(string_of(item.as_slice()));
            assert(views(r@) == views(before).push(item@));
        }
        i = i + 1;
    }
    assert(pv.take(parts@.len() as int) == pv);
    r
}

fn list_has_ignore_case(list: &Vec<String>, k: &Vec<char>) -> (r: bool)
    ensures
        r == contains_ignore_case(views(list@), k@),
{
    let mut i: usize = 0;
    while i < list.len()
        invariant
            i <= list@.len(),
            forall|j: int| 0 <= j < i ==> !eq_ignore_case(#[trigger] views(list@)[j], k@),
        decreases list@.len() - i,
    {
        let item = chars_of(list[i].as_str());
        if eq_ignore_case_chars(&item, k) {
            assert(eq_ignore_case(views(list@)[i as int], k@));
            return true;
        }
        i = i + 1;
    }
    false
}

impl Config {
    /// The configuration that the texts of the settings give. An empty text
    /// stands for a setting that is not there.
    pub fn resolve(
        excluded: &str,
        unit_max_age: &str,
        unit_skip_window: &str,
        known_resources: &str,
        available_resources: &str,
        defined_kinds: &str,
    ) -> (r: Config)
        ensures
            views(r.excluded_kinds@) == setting_list(excluded@),
            views(r.defined_kinds@) == setting_list(defined_kinds@),
            views(r.known_resources@) == setting_list(known_resources@),
            views(r.available_resources@) == setting_list(available_resources@),
            r.unit_age.max == setting_days(unit_max_age@, DEFAULT_MAX_AGE_DAYS),
            r.unit_age.skip == setting_days(unit_skip_window@, DEFAULT_SKIP_WINDOW_DAYS),
    {
        Config {
            excluded_kinds: read_setting_list(excluded),
            defined_kinds: read_setting_list(defined_kinds),
            known_resources: read_setting_list(known_resources),
            available_resources: read_setting_list(available_resources),
            unit_age: UnitAge::from_settings(unit_max_age, unit_skip_window),
        }
    }

    /// The ageing thresholds of unit tests: maximum age, then skip window.
    pub fn aging_thresholds(&self) -> (r: (u32, u32))
        ensures
            r == (self.unit_age.max, self.unit_age.skip),
    {
        (self.unit_age.max, self.unit_age.skip)
    }
}

pub(crate) fn kind_excluded_chars(config: &Config, kind: &Vec<char>) -> (r: bool)
    ensures
        r == kind_excluded(*config, kind@),
{
    list_has_ignore_case(&config.excluded_kinds, kind)
}

pub(crate) fn kind_defined_chars(config: &Config, kind: &Vec<char>) -> (r: bool)
    ensures
        r == kind_defined(*config, kind@),
{
    if config.defined_kinds.len() == 0 {
        return true;
    }
    list_has_ignore_case(&config.defined_kinds, kind)
}

pub(crate) fn resource_known_chars(config: &Config, resource: &Vec<char>) -> (r: bool)
    ensures
        r == resource_known(*config, resource@),
{
    if config.known_resources.len() == 0 {
        return true;
    }
    list_has_ignore_case(&config.known_resources, resource)
}

/// Whether tests of `kind` are excluded.
pub fn is_test_kind_excluded(config: &Config, kind: &str) -> (r: bool)
    ensures
        r == kind_excluded(*config, kind@),
{
    kind_excluded_chars(config, &chars_of(kind))
}

/// Whether `kind` is a defined kind of test.
pub fn is_test_kind_defined(config: &Config, kind: &str) -> (r: bool)
    ensures
        r == kind_defined(*config, kind@),
{
    kind_defined_chars(config, &chars_of(kind))
}

/// Whether `resource` is a known resource.
pub fn is_test_resource_defined(config: &Config, resource: &str) -> (r: bool)
    ensures
        r == resource_known(*config, resource@),
{
    resource_known_chars(config, &chars_of(resource))
}

/// Whether `list` holds `item`, compared exactly.
fn holds_name(list: &[String], item: &String) -> (r: bool)
    ensures
        r == views(list@).contains(item@),
{
    let ghost lv = views(list@);
    let mut j: usize = 0;
    while j < list.len()
        invariant
            j <= list@.len(),
            lv == views(list@),
            forall|k: int| 0 <= k < j ==> lv[k] != item@,
        decreases list@.len() - j,
    {
        if list[j].eq(item) {
            assert(lv[j as int] == item@);
            return true;
        }
        j = j + 1;
    }
    false
}

/// The requested resources that are not available: each once, in the order
/// of their first request. Names are compared exactly.
pub fn has_resources_available(config: &Config, resources: &[String]) -> (r: Vec<String>)
    ensures
        views(r@) == missing(views(resources@), views(config.available_resources@)),
        no_duplicates(views(r@)),
        forall|x: Seq<char>|
            views(r@).contains(x) <==> (views(resources@).contains(x) && !views(
                config.available_resources@,
            ).contains(x)),
{
    let ghost avail = views(config.available_resources@);
    let ghost req = views(resources@);
    let mut r: Vec<String> = Vec::new();
    let mut i: usize = 0;
    while i < resources.len()
        invariant
            i <= resources@.len(),
            req == views(resources@),
            avail == views(config.available_resources@),
            views(r@) == missing(req.take(i as int), avail),
        decreases resources@.len() - i,
    {
        assert(req.take(i + 1).drop_last() == req.take(i as int));
        assert(req[i as int] == resources@[i as int]@);
        if !holds_name(config.available_resources.as_slice(), &resources[i]) && !holds_name(
            r.as_slice(),
            &resources[i],
        ) {
            let ghost before = r@;
            r.push(resources[i].clone());
            assert(views(r@) == views(before).push(req[i as int]));
        }
        i = i + 1;
    }
    assert(req.take(resources@.len() as int) == req);
    proof {
        lemma_missing_no_duplicates(req, avail);
        assert forall|x: Seq<char>|
            views(r@).contains(x) <==> (req.contains(x) && !avail.contains(x)) by {
            lemma_missing_is_difference(req, avail, x);
        }
    }
    r
}

} // verus!
