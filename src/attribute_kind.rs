//! The kinds of tests, how their attribute text is read, and what is done
//! with each of them.
use vstd::prelude::*;

use crate::config::{
    kind_defined, kind_defined_chars, kind_excluded, kind_excluded_chars, missing,
    resource_known, resource_known_chars, has_resources_available, Config,
};
use crate::date::{ymd_text_days, Date};
use crate::text::{
    is_space, trim_end, trim_start, chars_of, find_char, index_from, no_duplicates, same_chars, slice_of, split_chars, split_on,
    starts_with, string_of, strip_prefix, trim, trim_chars, views,
};
use crate::unit_age::{age_outcome, AgeOutcome, UnitAgeResult};

verus! {

/// Day number of 2023-10-10, the earliest date a unit test may give as its last update.
pub const EARLIEST_UPDATE_DAYS: i32 = 738803;

/// How many days past the current date a unit test's last update may lie.
pub const MAX_DAYS_AHEAD: i32 = 2;

/// What kind of test this is, and its attributes.
#[derive(Debug)]
pub enum AttributeKind {
    /// A unit test, last updated on the given day.
    Unit { updated: Date },
    /// A stand-alone integration test.
    Integration,
    /// Any other kind of test, with the resources it needs.
    Other { kind: String, resources: Vec<String> },
}

/// What to do with a test.
#[derive(Debug)]
pub enum TestSettings {
    /// Run it.
    Run,
    /// Drop it silently.
    Ignore,
    /// Keep it, but skip it with a reason.
    Skip { reason: String },
}

/// Why an attribute text was refused.
#[derive(Clone, Copy, Debug, PartialEq, Eq, Structural)]
pub enum ParseErrorKind {
    InvalidFormat,
    InvalidDateFormat,
    DateTooEarly,
    DateTooLate,
    InvalidOptions,
    UndefinedKind,
    EmptyResourceList,
    DuplicateResource,
    UnknownResource,
}

/// A refused attribute text, with the reason.
#[derive(Debug)]
pub struct ParseError {
    pub kind: ParseErrorKind,
    /// The attribute text that was refused.
    pub attributes: String,
}

/// The meaning of an [`AttributeKind`].
pub enum KindView {
    Unit { updated: int },
    Integration,
    Other { kind: Seq<char>, resources: Seq<Seq<char>> },
}

/// The meaning of a [`TestSettings`].
pub enum SettingsView {
    Run,
    Ignore,
    Skip(Seq<char>),
}

impl View for AttributeKind {
    type V = KindView;

    open spec fn view(&self) -> KindView {
        match self {
            AttributeKind::Unit { updated } => KindView::Unit { updated: updated.days as int },
            AttributeKind::Integration => KindView::Integration,
            AttributeKind::Other { kind, resources } => KindView::Other {
                kind: kind@,
                resources: views(resources@),
            },
        }
    }
}

impl View for TestSettings {
    type V = SettingsView;

    open spec fn view(&self) -> SettingsView {
        match self {
            TestSettings::Run => SettingsView::Run,
            TestSettings::Ignore => SettingsView::Ignore,
            TestSettings::Skip { reason } => SettingsView::Skip(reason@),
        }
    }
}

/// Each of the pieces, trimmed.
pub open spec fn trimmed_pieces(parts: Seq<Seq<char>>) -> Seq<Seq<char>>
    decreases parts.len(),
{
    if parts.len() == 0 {
        Seq::empty()
    } else {
        trimmed_pieces(parts.drop_last()).push(trim(parts.last()))
    }
}

/// The resource names of a comma-separated list, each trimmed; a blank
/// list names none.
pub open spec fn resource_list(text: Seq<char>) -> Seq<Seq<char>> {
    if trim(text).len() == 0 {
        Seq::empty()
    } else {
        trimmed_pieces(split_on(text, ','))
    }
}

/// The day of last update that the options of a unit test give, checked
/// against the window from the earliest date to `today` plus the days ahead.
pub open spec fn updated_of(options: Seq<char>, today: int) -> Result<int, ParseErrorKind> {
    match strip_prefix(options, "updated="@) {
        None => Err(ParseErrorKind::InvalidOptions),
        Some(date_text) => match ymd_text_days(date_text) {
            None => Err(ParseErrorKind::InvalidDateFormat),
            Some(d) => if d < EARLIEST_UPDATE_DAYS {
                Err(ParseErrorKind::DateTooEarly)
            } else if d > today + MAX_DAYS_AHEAD {
                Err(ParseErrorKind::DateTooLate)
            } else {
                Ok(d)
            },
        },
    }
}

/// The resources that the options of a test of another `kind` give.
pub open spec fn resources_of(config: Config, kind: Seq<char>, options: Seq<char>) -> Result<
    Seq<Seq<char>>,
    ParseErrorKind,
> {
    if !kind_defined(config, kind) {
        Err(ParseErrorKind::UndefinedKind)
    } else {
        match strip_prefix(options, "resources="@) {
            None => Err(ParseErrorKind::InvalidOptions),
            Some(list) => {
                let items = resource_list(list);
                if items.len() == 0 {
                    Err(ParseErrorKind::EmptyResourceList)
                } else if !no_duplicates(items) {
                    Err(ParseErrorKind::DuplicateResource)
                } else if exists|i: int|
                    0 <= i < items.len() && !resource_known(config, #[trigger] items[i]) {
                    Err(ParseErrorKind::UnknownResource)
                } else {
                    Ok(items)
                }
            },
        }
    }
}

/// What an attribute text declares. It is split at its first comma into a
/// kind and options, each trimmed; `integration` stands alone.
pub open spec fn parse_attributes(text: Seq<char>, config: Config, today: int) -> Result<
    KindView,
    ParseErrorKind,
> {
    match index_from(text, ',', 0) {
        None => if trim(text) == "integration"@ {
            Ok(KindView::Integration)
        } else {
            Err(ParseErrorKind::InvalidFormat)
        },
        Some(i) => {
            let kind = trim(text.take(i));
            let options = trim(text.skip(i + 1));
            if kind == "unit"@ {
                match updated_of(options, today) {
                    Ok(d) => Ok(KindView::Unit { updated: d }),
                    Err(e) => Err(e),
                }
            } else {
                match resources_of(config, kind, options) {
                    Ok(rs) => Ok(KindView::Other { kind, resources: rs }),
                    Err(e) => Err(e),
                }
            }
        },
    }
}

/// The names separated by `", "`.
pub open spec fn joined(names: Seq<Seq<char>>) -> Seq<char>
    decreases names.len(),
{
    if names.len() == 0 {
        Seq::empty()
    } else if names.len() == 1 {
        names[0]
    } else {
        joined(names.drop_last()) + ", "@ + names.last()
    }
}

/// What is done with a test of the given kind, on day `now`.
pub open spec fn decision(k: KindView, config: Config, now: int) -> SettingsView {
    match k {
        KindView::Unit { updated } => match age_outcome(
            updated,
            now,
            config.unit_age.max,
            config.unit_age.skip,
        ) {
            AgeOutcome::Young => if kind_excluded(config, "unit"@) {
                SettingsView::Skip("Unit tests are excluded"@)
            } else {
                SettingsView::Run
            },
            AgeOutcome::Aged(reason) => SettingsView::Skip(reason),
            AgeOutcome::Old => SettingsView::Ignore,
        },
        KindView::Integration => if kind_excluded(config, "integration"@) {
            SettingsView::Skip("Integration tests are excluded"@)
        } else {
            SettingsView::Run
        },
        KindView::Other { kind, resources } => if kind_excluded(config, kind) {
            SettingsView::Skip("Test of kind: "@ + kind + " are excluded"@)
        } else {
            let absent = missing(resources, views(config.available_resources@));
            if absent.len() == 0 {
                SettingsView::Run
            } else {
                SettingsView::Skip(
                    "Test of kind: "@ + kind + " requires "@ + "{"@ + joined(absent) + "}"@,
                )
            }
        },
    }
}

fn resource_names(list: &Vec<char>) -> (r: Vec<Vec<char>>)
    ensures
        r@.map_values(|v: Vec<char>| v@) == resource_list(list@),
{
    if trim_chars(list).len() == 0 {
        return Vec::new();
    }
    let parts = split_chars(list, ',');
    let ghost pv = parts@.map_values(|v: Vec<char>| v@);
    let mut r: Vec<Vec<char>> = Vec::new();
    let mut i: usize = 0;
    while i < parts.len()
        invariant
            i <= parts@.len(),
            pv == parts@.map_values(|v: Vec<char>| v@),
            trim(list@).len() > 0,
            r@.map_values(|v: Vec<char>| v@) == trimmed_pieces(pv.take(i as int)),
        decreases parts@.len() - i,
    {
        assert(pv.take(i + 1).drop_last() == pv.take(i as int));
        let item = trim_chars(&parts[i]);
        let ghost before = r@.map_values(|v: Vec<char>| v@);
        let ghost iv = item@;
        r.push(item);
        assert(r@.map_values(|v: Vec<char>| v@) == before.push(iv));
        i = i + 1;
    }
    assert(pv.take(parts@.len() as int) == pv);
    r
}

impl AttributeKind {
    /// Whether this kind of test is excluded.
    pub fn is_excluded(&self, config: &Config) -> (r: bool)
        ensures
            r == kind_excluded(
                *config,
                match self@ {
                    KindView::Unit { .. } => "unit"@,
                    KindView::Integration => "integration"@,
                    KindView::Other { kind, .. } => kind,
                },
            ),
    {
        match self {
            AttributeKind::Unit { .. } => kind_excluded_chars(config, &chars_of("unit")),
            AttributeKind::Integration => kind_excluded_chars(config, &chars_of("integration")),
            AttributeKind::Other { kind, .. } => kind_excluded_chars(
                config,
                &chars_of(kind.as_str()),
            ),
        }
    }

    /// The day of last update in the options of a unit test, `updated=YYYY-MM-DD`.
    fn parse_updated(options: &Vec<char>, today: Date) -> (r: Result<Date, ParseErrorKind>)
        ensures
            match r {
                Ok(d) => updated_of(options@, today.days as int) == Ok::<int, ParseErrorKind>(
                    d.days as int,
                ),
                Err(e) => updated_of(options@, today.days as int) == Err::<int, ParseErrorKind>(e),
            },
    {
        let prefix = chars_of("updated=");
        if !starts_with(options, &prefix) {
            return Err(ParseErrorKind::InvalidOptions);
        }
        let date_chars = slice_of(options, prefix.len(), options.len());
        assert(date_chars@ == options@.skip(prefix@.len() as int));
        let date_text = string_of(date_chars.as_slice());
        match Date::parse(date_text.as_str()) {
            None => Err(ParseErrorKind::InvalidDateFormat),
            Some(d) => {
                if d.days < EARLIEST_UPDATE_DAYS {
                    Err(ParseErrorKind::DateTooEarly)
                } else if d.days as i64 > today.days as i64 + MAX_DAYS_AHEAD as i64 {
                    Err(ParseErrorKind::DateTooLate)
                } else {
                    Ok(d)
                }
            },
        }
    }

    /// The resources in the options of a test of another `kind`,
    /// `resources=<name>, <name>, ...`.
    fn parse_resources(config: &Config, kind: &Vec<char>, options: &Vec<char>) -> (r: Result<
        Vec<String>,
        ParseErrorKind,
    >)
        ensures
            match r {
                Ok(rs) => resources_of(*config, kind@, options@) == Ok::<
                    Seq<Seq<char>>,
                    ParseErrorKind,
                >(views(rs@)),
                Err(e) => resources_of(*config, kind@, options@) == Err::<
                    Seq<Seq<char>>,
                    ParseErrorKind,
                >(e),
            },
    {
        if !kind_defined_chars(config, kind) {
            return Err(ParseErrorKind::UndefinedKind);
        }
        let prefix = chars_of("resources=");
        if !starts_with(options, &prefix) {
            return Err(ParseErrorKind::InvalidOptions);
        }
        let list = slice_of(options, prefix.len(), options.len());
        assert(list@ == options@.skip(prefix@.len() as int));
        assert(prefix@ == "resources="@);
        let items = resource_names(&list);
        let ghost iv = items@.map_values(|v: Vec<char>| v@);
        if items.len() == 0 {
            return Err(ParseErrorKind::EmptyResourceList);
        }
        let mut i: usize = 0;
        while i < items.len()
            invariant
                i <= items@.len(),
                kind_defined(*config, kind@),
                strip_prefix(options@, "resources="@) == Some(list@),
                iv == resource_list(list@),
                iv == items@.map_values(|v: Vec<char>| v@),
                forall|a: int, b: int| 0 <= a < b < iv.len() && a < i ==> iv[a] != iv[b],
            decreases items@.len() - i,
        {
            let mut j: usize = i + 1;
            while j < items.len()
                invariant
                    i < j <= items@.len(),
                    kind_defined(*config, kind@),
                    strip_prefix(options@, "resources="@) == Some(list@),
                    iv == resource_list(list@),
                    iv == items@.map_values(|v: Vec<char>| v@),
                    forall|a: int, b: int| 0 <= a < b < iv.len() && a < i ==> iv[a] != iv[b],
                    forall|b: int| i < b < j ==> iv[i as int] != iv[b],
                decreases items@.len() - j,
            {
                if same_chars(&items[i], &items[j]) {
                    assert(iv[i as int] == iv[j as int]);
                    return Err(ParseErrorKind::DuplicateResource);
                }
                j = j + 1;
            }
            i = i + 1;
        }
        let mut i: usize = 0;
        while i < items.len()
            invariant
                i <= items@.len(),
                kind_defined(*config, kind@),
                strip_prefix(options@, "resources="@) == Some(list@),
                iv == resource_list(list@),
                no_duplicates(iv),
                iv == items@.map_values(|v: Vec<char>| v@),
                forall|k: int| 0 <= k < i ==> resource_known(*config, #[trigger] iv[k]),
            decreases items@.len() - i,
        {
            if !resource_known_chars(config, &items[i]) {
                assert(!resource_known(*config, iv[i as int]));
                return Err(ParseErrorKind::UnknownResource);
            }
            i = i + 1;
        }
        let mut rs: Vec<String> = Vec::new();
        let mut i: usize = 0;
        while i < items.len()
            invariant
                i <= items@.len(),
                iv == items@.map_values(|v: Vec<char>| v@),
                kind_defined(*config, kind@),
                strip_prefix(options@, "resources="@) == Some(list@),
                iv == resource_list(list@),
                forall|k: int| 0 <= k < iv.len() ==> resource_known(*config, #[trigger] iv[k]),
                no_duplicates(iv),
                views(rs@) == iv.take(i as int),
            decreases items@.len() - i,
        {
            let ghost before = rs@;
            rs.push(string_of(items[i].as_slice()));
            assert(views(rs@) == views(before).push(iv[i as int]));
            assert(iv.take(i + 1) == iv.take(i as int).push(iv[i as int]));
            i = i + 1;
        }
        assert(iv.take(items@.len() as int) == iv);
        Ok(rs)
    }
    /// Reads an attribute text: `unit, updated=YYYY-MM-DD`, `integration`, or
    /// `<kind>, resources=<name>, <name>, ...`. Dates are checked against `today`.
    pub fn from_str(attributes: &str, config: &Config, today: Date) -> (r: Result<
        AttributeKind,
        ParseError,
    >)
        ensures
            match r {
                Ok(k) => parse_attributes(attributes@, *config, today.days as int) == Ok::<
                    KindView,
                    ParseErrorKind,
                >(k@),
                Err(e) => parse_attributes(attributes@, *config, today.days as int) == Err::<
                    KindView,
                    ParseErrorKind,
                >(e.kind) && e.attributes@ == attributes@,
            },
    {
        let text = chars_of(attributes);
        let n = text.len();
        match find_char(&text, ',') {
            None => {
                let head = trim_chars(&text);
                if same_chars(&head, &chars_of("integration")) {
                    Ok(AttributeKind::Integration)
                } else {
                    Err(ParseError { kind: ParseErrorKind::InvalidFormat, attributes: attributes.to_owned() })
                }
            },
            Some(i) => {
                let head_part = slice_of(&text, 0, i);
                assert(head_part@ == text@.take(i as int));
                let option_part = slice_of(&text, i + 1, n);
                assert(option_part@ == text@.skip(i + 1));
                let head = trim_chars(&head_part);
                let options = trim_chars(&option_part);
                if same_chars(&head, &chars_of("unit")) {
                    match AttributeKind::parse_updated(&options, today) {
                        Ok(updated) => Ok(AttributeKind::Unit { updated }),
                        Err(kind) => Err(ParseError { kind, attributes: attributes.to_owned() }),
                    }
                } else {
                    match AttributeKind::parse_resources(config, &head, &options) {
                        Ok(resources) => Ok(
                            AttributeKind::Other { kind: string_of(head.as_slice()), resources },
                        ),
                        Err(kind) => Err(ParseError { kind, attributes: attributes.to_owned() }),
                    }
                }
            },
        }
    }

    /// What to do with this test, judged on day `now`.
    pub fn what_to_do(self, config: &Config, now: Date) -> (r: TestSettings)
        ensures
            r@ == decision(self@, *config, now.days as int),
    {
        let excluded = self.is_excluded(config);
        match self {
            AttributeKind::Unit { updated } => match config.unit_age.unit_aged_out(updated, now) {
                UnitAgeResult::Young => {
                    if excluded {
                        TestSettings::Skip { reason: "Unit tests are excluded".to_owned() }
                    } else {
                        TestSettings::Run
                    }
                },
                UnitAgeResult::Aged(reason) => TestSettings::Skip { reason },
                UnitAgeResult::Old => TestSettings::Ignore,
            },
            AttributeKind::Integration => {
                if excluded {
                    TestSettings::Skip { reason: "Integration tests are excluded".to_owned() }
                } else {
                    TestSettings::Run
                }
            },
            AttributeKind::Other { kind, resources } => {
                if excluded {
                    let mut reason = "Test of kind: ".to_owned();
                    reason.append(kind.as_str());
                    reason.append(" are excluded");
                    TestSettings::Skip { reason }
                } else {
                    let absent = has_resources_available(config, resources.as_slice());
                    if absent.len() == 0 {
                        TestSettings::Run
                    } else {
                        let mut reason = "Test of kind: ".to_owned();
                        reason.append(kind.as_str());
                        reason.append(" requires ");
                        reason.append("{");
                        append_joined(&mut reason, &absent);
                        reason.append("}");
                        TestSettings::Skip { reason }
                    }
                }
            },
        }
    }
}

/// Appends the names, separated by `", "`.
fn append_joined(text: &mut String, names: &Vec<String>)
    ensures
        final(text)@ == old(text)@ + joined(views(names@)),
{
    let ghost nv = views(names@);
    let ghost start = text@;
    let mut i: usize = 0;
    assert(nv.take(0) == Seq::<Seq<char>>::empty());
    while i < names.len()
        invariant
            i <= names@.len(),
            nv == views(names@),
            text@ == start + joined(nv.take(i as int)),
        decreases names@.len() - i,
    {
        assert(nv.take(i + 1).drop_last() == nv.take(i as int));
        if i > 0 {
            text.append(", ");
        }
        text.append(names[i].as_str());
        i = i + 1;
    }
    assert(nv.take(names@.len() as int) == nv);
}

/// A declared kind that holds to the rules: a unit test's day lies in the
/// window, and another kind names at least one resource, none twice.
pub open spec fn well_formed(k: KindView, today: int) -> bool {
    match k {
        KindView::Unit { updated } => EARLIEST_UPDATE_DAYS <= updated <= today + MAX_DAYS_AHEAD,
        KindView::Integration => true,
        KindView::Other { resources, .. } => resources.len() > 0 && no_duplicates(resources),
    }
}

/// Whatever an attribute text is read as holds to the rules.
pub proof fn lemma_parsed_well_formed(text: Seq<char>, config: Config, today: int)
    ensures
        parse_attributes(text, config, today) is Ok ==> well_formed(
            parse_attributes(text, config, today)->Ok_0,
            today,
        ),
{
}

/// Reading an attribute text is deterministic: the same text, configuration
/// and date give equal results.
pub proof fn lemma_parse_deterministic(a: Seq<char>, b: Seq<char>, config: Config, today: int)
    requires
        a == b,
    ensures
        parse_attributes(a, config, today) == parse_attributes(b, config, today),
{
}

/// `unit, updated=<date text>` is read through the date text alone.
proof fn lemma_unit_text(date_text: Seq<char>, config: Config, today: int)
    requires
        date_text.len() > 0,
        !is_space(date_text.last()),
    ensures
        parse_attributes("unit, updated="@ + date_text, config, today) == match updated_of(
            "updated="@ + date_text,
            today,
        ) {
            Ok(d) => Ok::<KindView, ParseErrorKind>(KindView::Unit { updated: d }),
            Err(e) => Err(e),
        },
        strip_prefix("updated="@ + date_text, "updated="@) == Some(date_text),
{
    reveal_strlit("unit, updated=");
    reveal_strlit("updated=");
    reveal_strlit("unit");
    let text = "unit, updated="@ + date_text;
    assert(text[4] == ',');
    assert(index_from(text, ',', 4) == Some(4int));
    assert(index_from(text, ',', 3) == Some(4int));
    assert(index_from(text, ',', 2) == Some(4int));
    assert(index_from(text, ',', 1) == Some(4int));
    assert(index_from(text, ',', 0) == Some(4int));
    let head = text.take(4);
    assert(head == "unit"@);
    assert(trim_start(head) == head);
    assert(trim_end(head) == head);
    let rest = text.skip(5);
    let options = "updated="@ + date_text;
    assert(rest.drop_first() == options);
    assert(trim_start(options) == options);
    assert(trim_start(rest) == options);
    assert(options.last() == date_text.last());
    assert(trim_end(options) == options);
    assert(options.take(8) == "updated="@);
    assert(options.skip(8) == date_text);
}

/// A unit test whose date text reads a day before the earliest date is
/// refused as too early.
pub proof fn lemma_too_early(date_text: Seq<char>, config: Config, today: int)
    requires
        date_text.len() > 0,
        !is_space(date_text.last()),
        ymd_text_days(date_text) is Some,
        ymd_text_days(date_text)->Some_0 < EARLIEST_UPDATE_DAYS,
    ensures
        parse_attributes("unit, updated="@ + date_text, config, today) == Err::<
            KindView,
            ParseErrorKind,
        >(ParseErrorKind::DateTooEarly),
{
    lemma_unit_text(date_text, config, today);
}

/// A unit test whose date text reads a day, not before the earliest date,
/// more than the allowed days after `today` is refused as too late.
pub proof fn lemma_too_late(date_text: Seq<char>, config: Config, today: int)
    requires
        date_text.len() > 0,
        !is_space(date_text.last()),
        ymd_text_days(date_text) is Some,
        ymd_text_days(date_text)->Some_0 >= EARLIEST_UPDATE_DAYS,
        ymd_text_days(date_text)->Some_0 > today + MAX_DAYS_AHEAD,
    ensures
        parse_attributes("unit, updated="@ + date_text, config, today) == Err::<
            KindView,
            ParseErrorKind,
        >(ParseErrorKind::DateTooLate),
{
    lemma_unit_text(date_text, config, today);
}

} // verus!
