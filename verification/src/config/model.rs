//! The line model of a BepInEx `.cfg` file, the hints BepInEx writes in
//! the comments above each setting, and the editing operations.
use vstd::prelude::*;

use crate::text::{names_non_finite, names_non_finite_exec, byte_cut_ok_exec, has_char, is_white, lemma_split_push, lemma_find_from_none, lemma_trim_facts, lemma_trim_prepend_white, ascii_lower, ascii_lower_chars, byte_cut_ok, chars_eq, chars_of, contains, contains_exec, decimal_int, decimal_string_i64, find_sub_exec, find_sub_from, is_float_text, is_float_text_exec, parse_i64, parse_i64_spec, push_char, slice_chars, split_char, string_of, strip_prefix_ic, strip_prefix_ic_exec, trim, trim_chars, trim_start, trim_start_char, trim_start_char_exec, trim_start_chars};

verus! {

/// One line of a configuration file.
#[derive(Debug, Clone, PartialEq, Eq)]
pub enum ConfigLine {
    Blank,
    Comment(String),
    Section(String),
    Setting { key: String, value: String },
}

/// The abstract value of a [`ConfigLine`].
pub enum LineView {
    Blank,
    Comment(Seq<char>),
    Section(Seq<char>),
    Setting { key: Seq<char>, value: Seq<char> },
}

impl View for ConfigLine {
    type V = LineView;

    open spec fn view(&self) -> LineView {
        match self {
            ConfigLine::Blank => LineView::Blank,
            ConfigLine::Comment(text) => LineView::Comment(text@),
            ConfigLine::Section(name) => LineView::Section(name@),
            ConfigLine::Setting { key, value } => LineView::Setting { key: key@, value: value@ },
        }
    }
}

/// A parsed configuration file: its lines in order.
#[derive(Debug, Clone, PartialEq, Eq)]
pub struct ConfigDocument {
    pub lines: Vec<ConfigLine>,
}

impl View for ConfigDocument {
    type V = Seq<LineView>;

    open spec fn view(&self) -> Seq<LineView> {
        self.lines@.map_values(|l: ConfigLine| l@)
    }
}


/// The value type BepInEx declares for a setting.
#[derive(Debug, Clone, Copy, PartialEq, Eq, Structural)]
pub enum SettingTypeHint {
    Boolean,
    Integer,
    Decimal,
    String,
    Other,
}

/// What values a setting accepts. A range keeps the two bounds as the
/// decimal texts the hint gives; each of them is text `f64::from_str`
/// accepts.
#[derive(Debug, Clone, PartialEq, Eq)]
pub enum ValueConstraint {
    Unconstrained,
    Range { minimum: String, maximum: String },
    Choices(Vec<String>),
}

/// The abstract value of a [`ValueConstraint`].
pub enum ConstraintView {
    Unconstrained,
    Range { minimum: Seq<char>, maximum: Seq<char> },
    Choices(Seq<Seq<char>>),
}

impl View for ValueConstraint {
    type V = ConstraintView;

    open spec fn view(&self) -> ConstraintView {
        match self {
            ValueConstraint::Unconstrained => ConstraintView::Unconstrained,
            ValueConstraint::Range { minimum, maximum } => ConstraintView::Range {
                minimum: minimum@,
                maximum: maximum@,
            },
            ValueConstraint::Choices(choices) => ConstraintView::Choices(choices.deep_view()),
        }
    }
}

/// The editor widget a setting is shown with.
#[derive(Debug, Clone, Copy, PartialEq, Eq, Structural)]
pub enum SettingWidget {
    Checkbox,
    MultiCheckbox,
    Slider,
    NumberInput,
    Dropdown,
    Text,
}

/// What the comment lines above a setting say about it.
#[derive(Debug, Clone, PartialEq, Eq)]
pub struct SettingMetadata {
    pub description_lines: Vec<String>,
    pub setting_type: Option<SettingTypeHint>,
    pub setting_type_label: Option<String>,
    pub default_value: Option<String>,
    pub constraint: ValueConstraint,
    pub allows_multiple_values: bool,
    pub has_hint_lines: bool,
}

/// The abstract value of a [`SettingMetadata`].
pub struct MetadataView {
    pub description_lines: Seq<Seq<char>>,
    pub setting_type: Option<SettingTypeHint>,
    pub setting_type_label: Option<Seq<char>>,
    pub default_value: Option<Seq<char>>,
    pub constraint: ConstraintView,
    pub allows_multiple_values: bool,
    pub has_hint_lines: bool,
}

impl View for SettingMetadata {
    type V = MetadataView;

    open spec fn view(&self) -> MetadataView {
        MetadataView {
            description_lines: self.description_lines.deep_view(),
            setting_type: self.setting_type,
            setting_type_label: self.setting_type_label.deep_view(),
            default_value: self.default_value.deep_view(),
            constraint: self.constraint@,
            allows_multiple_values: self.allows_multiple_values,
            has_hint_lines: self.has_hint_lines,
        }
    }
}

/// One setting of a document, with everything the editor needs.
#[derive(Debug, Clone, PartialEq, Eq)]
pub struct EditableSetting {
    pub section: String,
    pub key: String,
    pub value: String,
    pub line_index: usize,
    pub metadata: SettingMetadata,
    pub widget: SettingWidget,
    pub can_revert: bool,
}

/// The abstract value of an [`EditableSetting`].
pub struct SettingView {
    pub section: Seq<char>,
    pub key: Seq<char>,
    pub value: Seq<char>,
    pub line_index: int,
    pub metadata: MetadataView,
    pub widget: SettingWidget,
    pub can_revert: bool,
}

impl View for EditableSetting {
    type V = SettingView;

    open spec fn view(&self) -> SettingView {
        SettingView {
            section: self.section@,
            key: self.key@,
            value: self.value@,
            line_index: self.line_index as int,
            metadata: self.metadata@,
            widget: self.widget,
            can_revert: self.can_revert,
        }
    }
}

/// A value that does not fit the declared type.
#[derive(Debug, Clone, PartialEq, Eq)]
pub enum ValueCoerceError {
    InvalidBoolean { raw: String },
    InvalidInteger { raw: String },
    InvalidDecimal { raw: String },
}

/// The abstract value of a [`ValueCoerceError`].
pub enum CoerceErrorView {
    InvalidBoolean(Seq<char>),
    InvalidInteger(Seq<char>),
    InvalidDecimal(Seq<char>),
}

impl View for ValueCoerceError {
    type V = CoerceErrorView;

    open spec fn view(&self) -> CoerceErrorView {
        match self {
            ValueCoerceError::InvalidBoolean { raw } => CoerceErrorView::InvalidBoolean(raw@),
            ValueCoerceError::InvalidInteger { raw } => CoerceErrorView::InvalidInteger(raw@),
            ValueCoerceError::InvalidDecimal { raw } => CoerceErrorView::InvalidDecimal(raw@),
        }
    }
}

// ---------------------------------------------------------------------------
// Hint text
// ---------------------------------------------------------------------------

/// Marker of the declared type.
pub open spec fn type_prefix() -> Seq<char> {
    "Setting type:"@
}

/// Marker of the default value.
pub open spec fn default_prefix() -> Seq<char> {
    "Default value:"@
}

/// Marker of a list of accepted values.
pub open spec fn values_prefix() -> Seq<char> {
    "Acceptable values:"@
}

/// Marker of an accepted range.
pub open spec fn range_prefix() -> Seq<char> {
    "Acceptable value range:"@
}

/// Marker of a flags setting.
pub open spec fn multiple_prefix() -> Seq<char> {
    "Multiple values can be set"@
}

/// Start of a range hint.
pub open spec fn from_prefix() -> Seq<char> {
    "From "@
}

/// Separator of a range hint.
pub open spec fn to_separator() -> Seq<char> {
    " to "@
}

/// The body of a comment line: leading whitespace, then every leading `#`,
/// then one space are dropped.
pub open spec fn comment_body(line: Seq<char>) -> Seq<char> {
    let t = trim_start(line);
    let rest = t.skip(trim_start_char(t, '#', 0));
    if rest.len() > 0 && rest[0] == ' ' {
        rest.skip(1)
    } else {
        rest
    }
}

/// The pieces of a comma-separated list, trimmed, without the empty ones.
pub open spec fn comma_items(pieces: Seq<Seq<char>>) -> Seq<Seq<char>>
    decreases pieces.len(),
{
    if pieces.len() == 0 {
        Seq::empty()
    } else {
        let rest = comma_items(pieces.drop_last());
        let t = trim(pieces.last());
        if t.len() > 0 {
            rest.push(t)
        } else {
            rest
        }
    }
}

/// `text` split at `,`, each piece trimmed, empty pieces dropped.
pub open spec fn split_comma_list(text: Seq<char>) -> Seq<Seq<char>> {
    comma_items(split_char(text, ','))
}

/// The bounds of a hint `From <a> to <b>`, when both are decimal texts.
pub open spec fn parse_range_spec(text: Seq<char>) -> Option<(Seq<char>, Seq<char>)> {
    match strip_prefix_ic(trim(text), from_prefix()) {
        Some(rest) => {
            let w = trim(rest);
            match find_sub_from(ascii_lower(w), to_separator(), 0) {
                Some(i) => {
                    let lo = trim(w.take(i));
                    let hi = trim(w.skip(i + 4));
                    if is_float_text(lo) && is_float_text(hi) {
                        Some((lo, hi))
                    } else {
                        None
                    }
                },
                None => None,
            }
        },
        None => None,
    }
}

/// The metadata collected before any hint line is read.
pub open spec fn empty_metadata() -> MetadataView {
    MetadataView {
        description_lines: Seq::empty(),
        setting_type: None,
        setting_type_label: None,
        default_value: None,
        constraint: ConstraintView::Unconstrained,
        allows_multiple_values: false,
        has_hint_lines: false,
    }
}

/// How one comment line changes the collected metadata.
pub open spec fn hint_step(m: MetadataView, raw: Seq<char>) -> MetadataView {
    let body = comment_body(raw);
    if let Some(label) = strip_prefix_ic(body, type_prefix()) {
        MetadataView { setting_type_label: Some(trim(label)), ..m }
    } else if let Some(value) = strip_prefix_ic(body, default_prefix()) {
        MetadataView { default_value: Some(trim(value)), ..m }
    } else if let Some(values) = strip_prefix_ic(body, values_prefix()) {
        let choices = split_comma_list(values);
        if choices.len() > 0 {
            MetadataView { constraint: ConstraintView::Choices(choices), ..m }
        } else {
            m
        }
    } else if let Some(range_text) = strip_prefix_ic(body, range_prefix()) {
        match parse_range_spec(range_text) {
            Some(bounds) => MetadataView {
                constraint: ConstraintView::Range { minimum: bounds.0, maximum: bounds.1 },
                ..m
            },
            None => m,
        }
    } else if strip_prefix_ic(body, multiple_prefix()) is Some {
        MetadataView { allows_multiple_values: true, ..m }
    } else if body.len() > 0 {
        MetadataView { description_lines: m.description_lines.push(body), ..m }
    } else {
        m
    }
}

/// Metadata collected from comment lines, before the type is classified.
pub open spec fn hints_folded(lines: Seq<Seq<char>>) -> MetadataView
    decreases lines.len(),
{
    if lines.len() == 0 {
        empty_metadata()
    } else {
        hint_step(hints_folded(lines.drop_last()), lines.last())
    }
}

/// What the comment lines above a setting say about it.
pub open spec fn metadata_spec(lines: Seq<Seq<char>>) -> MetadataView {
    let m = hints_folded(lines);
    MetadataView {
        setting_type: match m.setting_type_label {
            Some(label) => Some(type_from_label(label)),
            None => None,
        },
        has_hint_lines: lines.len() > 0,
        ..m
    }
}

/// Reading hints cuts a comment body at the byte lengths of the hint
/// markers it tests, in order, and cuts a range hint at the length of
/// `From `; a cut inside a character would panic. This holds when none of
/// these cuts falls inside a character.
pub open spec fn hint_line_cuttable(raw: Seq<char>) -> bool {
    let body = comment_body(raw);
    &&& byte_cut_ok(body, type_prefix().len())
    &&& strip_prefix_ic(body, type_prefix()) is None ==> {
        &&& byte_cut_ok(body, default_prefix().len())
        &&& strip_prefix_ic(body, default_prefix()) is None ==> {
            &&& byte_cut_ok(body, values_prefix().len())
            &&& strip_prefix_ic(body, values_prefix()) is None ==> {
                &&& byte_cut_ok(body, range_prefix().len())
                &&& match strip_prefix_ic(body, range_prefix()) {
                    Some(range_text) => byte_cut_ok(trim(range_text), from_prefix().len()),
                    None => byte_cut_ok(body, multiple_prefix().len()),
                }
            }
        }
    }
}

/// Type named by a label, compared in ASCII lower case.
pub open spec fn type_from_label(label: Seq<char>) -> SettingTypeHint {
    let n = ascii_lower(trim(label));
    if n == "boolean"@ || n == "bool"@ {
        SettingTypeHint::Boolean
    } else if n == "int32"@ || n == "int64"@ || n == "int16"@ || n == "int"@ || n == "uint32"@
        || n == "uint64"@ || n == "byte"@ || n == "sbyte"@ {
        SettingTypeHint::Integer
    } else if n == "single"@ || n == "double"@ || n == "float"@ || n == "decimal"@ {
        SettingTypeHint::Decimal
    } else if n == "string"@ {
        SettingTypeHint::String
    } else if contains(n, "int"@) && !contains(n, "point"@) && !contains(n, "interface"@) {
        SettingTypeHint::Integer
    } else if contains(n, "float"@) || contains(n, "double"@) || contains(n, "single"@)
        || contains(n, "decimal"@) {
        SettingTypeHint::Decimal
    } else {
        SettingTypeHint::Other
    }
}

/// The widget chosen for a setting.
pub open spec fn widget_for(m: MetadataView) -> SettingWidget {
    match m.constraint {
        ConstraintView::Choices(_) => if m.allows_multiple_values {
            SettingWidget::MultiCheckbox
        } else {
            SettingWidget::Dropdown
        },
        ConstraintView::Range { .. } => match m.setting_type {
            Some(SettingTypeHint::Integer) | Some(SettingTypeHint::Decimal) | None => SettingWidget::Slider,
            Some(SettingTypeHint::Boolean) => SettingWidget::Checkbox,
            _ => SettingWidget::Text,
        },
        ConstraintView::Unconstrained => match m.setting_type {
            Some(SettingTypeHint::Boolean) => SettingWidget::Checkbox,
            Some(SettingTypeHint::Integer) | Some(SettingTypeHint::Decimal) => SettingWidget::NumberInput,
            _ => SettingWidget::Text,
        },
    }
}


/// Which widget a setting is edited with: a list of choices gives a
/// dropdown, or checkboxes when several values may be set; otherwise a
/// boolean is a checkbox; a number (or a setting of unknown type) with a
/// range is a slider; a number without one is a number field; anything else
/// is free text.
pub proof fn lemma_widget_choice(m: MetadataView)
    ensures
        m.constraint is Choices ==> widget_for(m) == (if m.allows_multiple_values {
            SettingWidget::MultiCheckbox
        } else {
            SettingWidget::Dropdown
        }),
        m.constraint !is Choices && m.setting_type == Some(SettingTypeHint::Boolean)
            ==> widget_for(m) == SettingWidget::Checkbox,
        m.constraint is Range && (m.setting_type == Some(SettingTypeHint::Integer) || m.setting_type
            == Some(SettingTypeHint::Decimal) || m.setting_type is None) ==> widget_for(m)
            == SettingWidget::Slider,
        m.constraint is Unconstrained && (m.setting_type == Some(SettingTypeHint::Integer)
            || m.setting_type == Some(SettingTypeHint::Decimal)) ==> widget_for(m)
            == SettingWidget::NumberInput,
        m.constraint !is Choices && (m.setting_type == Some(SettingTypeHint::String) || m.setting_type
            == Some(SettingTypeHint::Other)) ==> widget_for(m) == SettingWidget::Text,
        m.constraint is Unconstrained && m.setting_type is None ==> widget_for(m) == SettingWidget::Text,
{
}

/// Scanning state of [`ConfigDocument::editable_settings`]: the current
/// section, the comment lines since the last blank line, section or
/// setting, and the settings found so far.
pub struct ScanState {
    pub section: Seq<char>,
    pub comments: Seq<Seq<char>>,
    pub settings: Seq<SettingView>,
}

/// The setting read from line `idx` under the given state.
pub open spec fn setting_at(st: ScanState, key: Seq<char>, value: Seq<char>, idx: int) -> SettingView {
    let m = metadata_spec(st.comments);
    SettingView {
        section: st.section,
        key,
        value,
        line_index: idx,
        metadata: m,
        widget: widget_for(m),
        can_revert: m.default_value is Some && m.has_hint_lines,
    }
}

/// How line `idx` changes the scanning state.
pub open spec fn scan_step(st: ScanState, l: LineView, idx: int) -> ScanState {
    match l {
        LineView::Blank => ScanState { comments: Seq::empty(), ..st },
        LineView::Comment(text) => ScanState { comments: st.comments.push(text), ..st },
        LineView::Section(name) => ScanState { section: name, comments: Seq::empty(), ..st },
        LineView::Setting { key, value } => ScanState {
            comments: Seq::empty(),
            settings: st.settings.push(setting_at(st, key, value, idx)),
            ..st
        },
    }
}

/// The state after scanning all of `ls`.
pub open spec fn scan_lines(ls: Seq<LineView>) -> ScanState
    decreases ls.len(),
{
    if ls.len() == 0 {
        ScanState { section: Seq::empty(), comments: Seq::empty(), settings: Seq::empty() }
    } else {
        scan_step(scan_lines(ls.drop_last()), ls.last(), ls.len() - 1)
    }
}

/// The editable settings of a document, in file order.
pub open spec fn settings_spec(ls: Seq<LineView>) -> Seq<SettingView> {
    scan_lines(ls).settings
}

/// Every comment block that precedes a setting can be read without the
/// cuts described at [`hint_line_cuttable`] falling inside a character.
pub open spec fn hints_cuttable(ls: Seq<LineView>) -> bool {
    forall|i: int, j: int|
        #![trigger ls[i], scan_lines(ls.take(i)).comments[j]]
        0 <= i < ls.len() && ls[i] is Setting && 0 <= j < scan_lines(ls.take(i)).comments.len()
            ==> hint_line_cuttable(scan_lines(ls.take(i)).comments[j])
}

/// `items` joined with `", "`.
pub open spec fn join_comma(items: Seq<Seq<char>>) -> Seq<char>
    decreases items.len(),
{
    if items.len() == 0 {
        Seq::empty()
    } else if items.len() == 1 {
        items[0]
    } else {
        join_comma(items.drop_last()) + seq![',', ' '] + items.last()
    }
}

/// How a raw value is brought into the declared type.
///
/// `decimal` is the text `f64::to_string` gives for the value of
/// `trim(raw)` (with `.0` added when the raw text had a fraction or
/// exponent and the rendering has neither, and without fraction when the
/// raw text had neither and the value is whole), or `None` when that
/// value is not finite (as for a number too large for `f64`); it is only
/// read for decimal settings. Texts naming infinity or NaN are refused
/// whatever `decimal` holds.
pub open spec fn coerce_spec(
    raw: Seq<char>,
    setting_type: Option<SettingTypeHint>,
    decimal: Option<Seq<char>>,
) -> Result<Seq<char>, CoerceErrorView> {
    let t = trim(raw);
    match setting_type {
        Some(SettingTypeHint::Boolean) => {
            let l = ascii_lower(t);
            if l == "true"@ {
                Ok("true"@)
            } else if l == "false"@ {
                Ok("false"@)
            } else {
                Err(CoerceErrorView::InvalidBoolean(t))
            }
        },
        Some(SettingTypeHint::Integer) => match parse_i64_spec(t) {
            Some(n) => Ok(decimal_int(n)),
            None => Err(CoerceErrorView::InvalidInteger(t)),
        },
        Some(SettingTypeHint::Decimal) => if !is_float_text(t) || names_non_finite(t) {
            Err(CoerceErrorView::InvalidDecimal(t))
        } else {
            match decimal {
                Some(d) => Ok(d),
                None => Err(CoerceErrorView::InvalidDecimal(t)),
            }
        },
        _ => Ok(t),
    }
}

/// How typed input is checked: numeric types as [`coerce_spec`], other
/// types only trimmed.
pub open spec fn validate_spec(
    raw: Seq<char>,
    setting_type: SettingTypeHint,
    decimal: Option<Seq<char>>,
) -> Result<Seq<char>, CoerceErrorView> {
    match setting_type {
        SettingTypeHint::Integer | SettingTypeHint::Decimal => coerce_spec(
            raw,
            Some(setting_type),
            decimal,
        ),
        _ => Ok(trim(raw)),
    }
}

// ---------------------------------------------------------------------------
// Executable hint reading
// ---------------------------------------------------------------------------

/// The body of a comment line.
fn comment_body_exec(line: &Vec<char>) -> (r: Vec<char>)
    ensures
        r@ == comment_body(line@),
{
    let t = trim_start_chars(line);
    let h = trim_start_char_exec(&t, '#', 0);
    let rest = slice_chars(&t, h, t.len());
    if rest.len() > 0 && rest[0] == ' ' {
        slice_chars(&rest, 1, rest.len())
    } else {
        rest
    }
}

/// `text` split at `,`, each piece trimmed, empty pieces dropped.
fn split_comma_list_exec(text: &Vec<char>) -> (r: Vec<String>)
    ensures
        r.deep_view() == split_comma_list(text@),
{
    let mut out: Vec<String> = Vec::new();
    let ghost mut done: Seq<Seq<char>> = Seq::empty();
    let mut start: usize = 0;
    loop
        invariant
            start <= text.len(),
            split_char(text@, ',') == done + crate::text::split_char_from(text@, ',', start as int),
            out.deep_view() == comma_items(done),
        decreases text.len() - start,
    {
        let k = crate::text::find_char_from(text, ',', start);
        proof {
            crate::text::lemma_find_from(text@, ',', start as int);
        }
        let piece = slice_chars(text, start, k);
        let t = trim_chars(&piece);
        let ghost old_done = done;
        proof {
            done = done.push(piece@);
            assert(done.drop_last() =~= old_done);
        }
        if t.len() > 0 {
            out.push(string_of(&t));
        }
        proof {
            assert(out.deep_view() =~= comma_items(done));
        }
        if k >= text.len() {
            proof {
                assert(crate::text::split_char_from(text@, ',', start as int) =~= seq![piece@]);
                assert(split_char(text@, ',') =~= done);
            }
            return out;
        }
        proof {
            assert(crate::text::split_char_from(text@, ',', start as int) =~= seq![piece@]
                + crate::text::split_char_from(text@, ',', k + 1));
            assert(split_char(text@, ',') =~= done + crate::text::split_char_from(text@, ',', k + 1));
        }
        start = k + 1;
    }
}

/// Reads the bounds of a range hint.
fn parse_range_hint(text: &Vec<char>) -> (r: Option<(String, String)>)
    ensures
        r matches Some(b) ==> parse_range_spec(text@) == Some((b.0@, b.1@)),
        r is None ==> parse_range_spec(text@) is None,
{
    let trimmed = trim_chars(text);
    let rest = match strip_prefix_ic_exec(&trimmed, &chars_of("From ")) {
        Some(rest) => rest,
        None => return None,
    };
    let w = trim_chars(&rest);
    let lowered = ascii_lower_chars(&w);
    let i = match find_sub_exec(&lowered, &chars_of(" to "), 0) {
        Some(i) => i,
        None => return None,
    };
    proof {
        reveal_strlit(" to ");
        crate::text::lemma_find_sub_from(lowered@, " to "@, 0);
        assert(crate::text::occurs_at(lowered@, " to "@, i as int));
    }
    let lo_text = slice_chars(&w, 0, i);
    let hi_text = slice_chars(&w, i + 4, w.len());
    let lo = trim_chars(&lo_text);
    let hi = trim_chars(&hi_text);
    if is_float_text_exec(&lo) && is_float_text_exec(&hi) {
        Some((string_of(&lo), string_of(&hi)))
    } else {
        None
    }
}

/// Does `body` start with the marker `p`, ignoring ASCII case?
fn marker(body: &Vec<char>, p: &str) -> (r: Option<Vec<char>>)
    ensures
        r matches Some(rest) ==> strip_prefix_ic(body@, p@) == Some(rest@),
        r is None ==> strip_prefix_ic(body@, p@) is None,
{
    strip_prefix_ic_exec(body, &chars_of(p))
}

/// How one comment line changes the collected metadata.
fn hint_step_exec(m: &mut SettingMetadata, raw: &Vec<char>)
    ensures
        final(m)@ == hint_step(old(m)@, raw@),
{
    let body = comment_body_exec(raw);
    if let Some(label) = marker(&body, "Setting type:") {
        m.setting_type_label = Some(string_of(&trim_chars(&label)));
    } else if let Some(value) = marker(&body, "Default value:") {
        m.default_value = Some(string_of(&trim_chars(&value)));
    } else if let Some(values) = marker(&body, "Acceptable values:") {
        let choices = split_comma_list_exec(&values);
        if choices.len() > 0 {
            m.constraint = ValueConstraint::Choices(choices);
        }
    } else if let Some(range_text) = marker(&body, "Acceptable value range:") {
        if let Some(bounds) = parse_range_hint(&range_text) {
            m.constraint = ValueConstraint::Range { minimum: bounds.0, maximum: bounds.1 };
        }
    } else if marker(&body, "Multiple values can be set").is_some() {
        m.allows_multiple_values = true;
    } else if body.len() > 0 {
        let ghost old_lines = m.description_lines.deep_view();
        m.description_lines.push(string_of(&body));
        proof {
            assert(m.description_lines.deep_view() =~= old_lines.push(body@));
        }
    }
}

/// Decides [`hint_line_cuttable`].
fn hint_line_cuttable_exec(raw: &Vec<char>) -> (r: bool)
    ensures
        r == hint_line_cuttable(raw@),
{
    proof {
        reveal_strlit("Setting type:");
        reveal_strlit("Default value:");
        reveal_strlit("Acceptable values:");
        reveal_strlit("Acceptable value range:");
        reveal_strlit("Multiple values can be set");
        reveal_strlit("From ");
    }
    let body = comment_body_exec(raw);
    if !byte_cut_ok_exec(&body, 13) {
        return false;
    }
    if marker(&body, "Setting type:").is_some() {
        return true;
    }
    if !byte_cut_ok_exec(&body, 14) {
        return false;
    }
    if marker(&body, "Default value:").is_some() {
        return true;
    }
    if !byte_cut_ok_exec(&body, 18) {
        return false;
    }
    if marker(&body, "Acceptable values:").is_some() {
        return true;
    }
    if !byte_cut_ok_exec(&body, 23) {
        return false;
    }
    match marker(&body, "Acceptable value range:") {
        Some(range_text) => byte_cut_ok_exec(&trim_chars(&range_text), 5),
        None => byte_cut_ok_exec(&body, 26),
    }
}

impl ConfigDocument {
    /// Can the hints above every setting be read without cutting a comment
    /// inside a character? (See [`hints_cuttable`].)
    pub fn hints_cuttable_exec(&self) -> (r: bool)
        ensures
            r == hints_cuttable(self@),
    {
        let ghost ls = self@;
        let mut comments: Vec<Vec<char>> = Vec::new();
        let mut i: usize = 0;
        proof {
            assert(ls.take(0) =~= Seq::<LineView>::empty());
            assert(comments@.map_values(|c: Vec<char>| c@) =~= Seq::<Seq<char>>::empty());
        }
        while i < self.lines.len()
            invariant
                i <= self.lines.len(),
                ls == self@,
                comments@.map_values(|c: Vec<char>| c@) == scan_lines(ls.take(i as int)).comments,
                forall|a: int, b: int|
                    #![trigger ls[a], scan_lines(ls.take(a)).comments[b]]
                    0 <= a < i && ls[a] is Setting && 0 <= b < scan_lines(ls.take(a)).comments.len()
                        ==> hint_line_cuttable(scan_lines(ls.take(a)).comments[b]),
            decreases self.lines.len() - i,
        {
            let ghost st = scan_lines(ls.take(i as int));
            proof {
                let p = ls.take(i as int + 1);
                assert(p.drop_last() =~= ls.take(i as int));
                assert(p.last() == self.lines@[i as int]@);
            }
            match &self.lines[i] {
                ConfigLine::Setting { .. } => {
                    proof {
                        assert(ls[i as int] == self.lines@[i as int]@);
                    }
                    let mut j: usize = 0;
                    while j < comments.len()
                        invariant
                            i < self.lines.len(),
                            ls == self@,
                            ls[i as int] is Setting,
                            st == scan_lines(ls.take(i as int)),
                            j <= comments.len(),
                            comments@.map_values(|c: Vec<char>| c@) == st.comments,
                            forall|b: int| 0 <= b < j ==> hint_line_cuttable(#[trigger] st.comments[b]),
                        decreases comments.len() - j,
                    {
                        let ok = hint_line_cuttable_exec(&comments[j]);
                        proof {
                            assert(st.comments[j as int] == comments@[j as int]@);
                        }
                        if !ok {
                            proof {
                                assert(ls[i as int] is Setting);
                                assert(!hint_line_cuttable(scan_lines(ls.take(i as int)).comments[j as int]));
                            }
                            return false;
                        }
                        j += 1;
                    }
                    comments = Vec::new();
                    proof {
                        assert(comments@.map_values(|c: Vec<char>| c@) =~= Seq::<Seq<char>>::empty());
                    }
                },
                ConfigLine::Comment(text) => {
                    comments.push(chars_of(text.as_str()));
                    proof {
                        assert(comments@.map_values(|c: Vec<char>| c@) =~= st.comments.push(text@));
                    }
                },
                _ => {
                    comments = Vec::new();
                    proof {
                        assert(comments@.map_values(|c: Vec<char>| c@) =~= Seq::<Seq<char>>::empty());
                    }
                },
            }
            i += 1;
        }
        proof {
            assert(ls.len() == i);
        }
        true
    }
}

impl SettingMetadata {
    /// Collects what the comment lines above a setting say about it.
    pub fn from_comment_lines(comment_lines: &Vec<String>) -> (r: Self)
        requires
            forall|i: int|
                0 <= i < comment_lines.len() ==> hint_line_cuttable(#[trigger] comment_lines@[i]@),
        ensures
            r@ == metadata_spec(comment_lines.deep_view()),
    {
        let mut m = SettingMetadata {
            description_lines: Vec::new(),
            setting_type: None,
            setting_type_label: None,
            default_value: None,
            constraint: ValueConstraint::Unconstrained,
            allows_multiple_values: false,
            has_hint_lines: false,
        };
        proof {
            assert(m@.description_lines =~= Seq::<Seq<char>>::empty());
        }
        let mut i: usize = 0;
        while i < comment_lines.len()
            invariant
                i <= comment_lines.len(),
                m@ == hints_folded(comment_lines.deep_view().take(i as int)),
            decreases comment_lines.len() - i,
        {
            let raw = chars_of(comment_lines[i].as_str());
            hint_step_exec(&mut m, &raw);
            proof {
                let ls = comment_lines.deep_view().take(i as int + 1);
                assert(ls.drop_last() =~= comment_lines.deep_view().take(i as int));
            }
            i += 1;
        }
        proof {
            assert(comment_lines.deep_view().take(i as int) =~= comment_lines.deep_view());
        }
        m.setting_type = match &m.setting_type_label {
            Some(label) => Some(SettingTypeHint::from_label(label.as_str())),
            None => None,
        };
        m.has_hint_lines = comment_lines.len() > 0;
        m
    }
}

/// Is `n` exactly `word`?
fn word_is(n: &Vec<char>, word: &str) -> (b: bool)
    ensures
        b == (n@ == word@),
{
    chars_eq(n, &chars_of(word))
}

/// Does `word` occur in `n`?
fn word_in(n: &Vec<char>, word: &str) -> (b: bool)
    ensures
        b == contains(n@, word@),
{
    contains_exec(n, &chars_of(word))
}

impl SettingTypeHint {
    /// The type a `Setting type:` label names.
    pub fn from_label(label: &str) -> (r: Self)
        ensures
            r == type_from_label(label@),
    {
        let trimmed = trim_chars(&chars_of(label));
        let n = ascii_lower_chars(&trimmed);
        if word_is(&n, "boolean") || word_is(&n, "bool") {
            SettingTypeHint::Boolean
        } else if word_is(&n, "int32") || word_is(&n, "int64") || word_is(&n, "int16") || word_is(&n, "int") || word_is(&n, "uint32") || word_is(&n, 
            "uint64",
        ) || word_is(&n, "byte") || word_is(&n, "sbyte") {
            SettingTypeHint::Integer
        } else if word_is(&n, "single") || word_is(&n, "double") || word_is(&n, "float") || word_is(&n, "decimal") {
            SettingTypeHint::Decimal
        } else if word_is(&n, "string") {
            SettingTypeHint::String
        } else if word_in(&n, "int") && !word_in(&n, "point") && !word_in(&n, "interface") {
            SettingTypeHint::Integer
        } else if word_in(&n, "float") || word_in(&n, "double") || word_in(&n, "single") || word_in(&n, "decimal") {
            SettingTypeHint::Decimal
        } else {
            SettingTypeHint::Other
        }
    }

    /// Integer and decimal settings are numeric.
    pub fn is_numeric(self) -> (r: bool)
        ensures
            r == (self == SettingTypeHint::Integer || self == SettingTypeHint::Decimal),
    {
        match self {
            SettingTypeHint::Integer | SettingTypeHint::Decimal => true,
            _ => false,
        }
    }
}

impl SettingWidget {
    /// The widget a setting is edited with.
    pub fn from_metadata(metadata: &SettingMetadata) -> (r: Self)
        ensures
            r == widget_for(metadata@),
            metadata@.constraint !is Choices && metadata.setting_type == Some(SettingTypeHint::Boolean)
                ==> r == SettingWidget::Checkbox,
    {
        proof {
            lemma_widget_choice(metadata@);
        }
        match &metadata.constraint {
            ValueConstraint::Choices(_) => {
                if metadata.allows_multiple_values {
                    SettingWidget::MultiCheckbox
                } else {
                    SettingWidget::Dropdown
                }
            },
            ValueConstraint::Range { .. } => match metadata.setting_type {
                Some(SettingTypeHint::Integer) | Some(SettingTypeHint::Decimal) | None => SettingWidget::Slider,
                Some(SettingTypeHint::Boolean) => SettingWidget::Checkbox,
                _ => SettingWidget::Text,
            },
            ValueConstraint::Unconstrained => match metadata.setting_type {
                Some(SettingTypeHint::Boolean) => SettingWidget::Checkbox,
                Some(SettingTypeHint::Integer) | Some(SettingTypeHint::Decimal) => SettingWidget::NumberInput,
                _ => SettingWidget::Text,
            },
        }
    }
}

// ---------------------------------------------------------------------------
// Values
// ---------------------------------------------------------------------------

/// Joins selected flag names with `", "`.
pub fn join_flags_values(selected: &Vec<String>) -> (r: String)
    ensures
        r@ == join_comma(selected.deep_view()),
{
    let mut out = String::new();
    let mut i: usize = 0;
    while i < selected.len()
        invariant
            i <= selected.len(),
            out@ == join_comma(selected.deep_view().take(i as int)),
        decreases selected.len() - i,
    {
        if i > 0 {
            push_char(&mut out, ',');
            push_char(&mut out, ' ');
        }
        out.append(selected[i].as_str());
        proof {
            let items = selected.deep_view().take(i as int + 1);
            assert(items.drop_last() =~= selected.deep_view().take(i as int));
            if i == 0 {
                assert(items =~= seq![selected@[0]@]);
            }
        }
        i += 1;
    }
    proof {
        assert(selected.deep_view().take(i as int) =~= selected.deep_view());
    }
    out
}

/// Splitting joined flag names gives the names back, as long as each name
/// is non-empty, holds no comma, and has no whitespace at either end.
pub proof fn lemma_split_join_flags(xs: Seq<Seq<char>>)
    requires
        forall|i: int|
            0 <= i < xs.len() ==> #[trigger] xs[i].len() > 0 && trim(xs[i]) == xs[i] && !has_char(
                xs[i],
                ',',
            ),
    ensures
        split_comma_list(join_comma(xs)) == xs,
    decreases xs.len(),
{
    if xs.len() == 0 {
        let e = Seq::<char>::empty();
        lemma_find_from_none(e, ',', 0);
        assert(e.subrange(0, 0) =~= e);
        assert(split_char(e, ',') =~= seq![e]);
        assert(comma_items(Seq::<Seq<char>>::empty()) =~= Seq::<Seq<char>>::empty());
        lemma_trim_facts(e);
        assert(seq![e].drop_last() =~= Seq::<Seq<char>>::empty());
        assert(split_comma_list(join_comma(xs)) =~= xs);
    } else if xs.len() == 1 {
        let x = xs[0];
        assert(x.len() > 0);
        lemma_find_from_none(x, ',', 0);
        assert(x.subrange(0, x.len() as int) =~= x);
        assert(split_char(x, ',') =~= seq![x]);
        assert(seq![x].drop_last() =~= Seq::<Seq<char>>::empty());
        assert(comma_items(Seq::<Seq<char>>::empty()) =~= Seq::<Seq<char>>::empty());
        assert(trim(x) == x);
        assert(split_comma_list(join_comma(xs)) =~= xs);
    } else {
        let front = xs.drop_last();
        let last = xs.last();
        assert(last == xs[xs.len() - 1]);
        assert forall|i: int| 0 <= i < front.len() implies #[trigger] front[i].len() > 0 && trim(
            front[i],
        ) == front[i] && !has_char(front[i], ',') by {
            assert(front[i] == xs[i]);
        }
        lemma_split_join_flags(front);
        let j = join_comma(front);
        let tail = seq![' '] + last;
        assert(!has_char(tail, ',')) by {
            if has_char(tail, ',') {
                let w = choose|m: int| 0 <= m < tail.len() && tail[m] == ',';
                assert(last[w - 1] == ',');
            }
        }
        assert(join_comma(xs) =~= j + seq![','] + tail);
        lemma_split_push(j, tail, ',', 0);
        let pieces = split_char(j, ',').push(tail);
        assert(pieces.drop_last() =~= split_char(j, ','));
        assert(is_white(' '));
        lemma_trim_prepend_white(seq![' '], last);
        assert(trim(tail) == last);
        assert(split_comma_list(join_comma(xs)) =~= front.push(last));
        assert(front.push(last) =~= xs);
    }
}

/// The flag names of a flags value: split at `,`, trimmed, empty ones
/// dropped.
pub fn split_flags_values(value: &str) -> (r: Vec<String>)
    ensures
        r.deep_view() == split_comma_list(value@),
{
    split_comma_list_exec(&chars_of(value))
}

/// Normalizes a boolean: `true` or `false` in any ASCII case.
fn coerce_boolean(t: &Vec<char>) -> (r: Result<String, ValueCoerceError>)
    requires
        trim(t@) == t@,
    ensures
        r matches Ok(v) ==> coerce_spec(t@, Some(SettingTypeHint::Boolean), None) == Ok::<
            Seq<char>,
            CoerceErrorView,
        >(v@),
        r matches Err(e) ==> coerce_spec(t@, Some(SettingTypeHint::Boolean), None) == Err::<
            Seq<char>,
            CoerceErrorView,
        >(e@),
{
    let l = ascii_lower_chars(t);
    if word_is(&l, "true") {
        Ok("true".to_owned())
    } else if word_is(&l, "false") {
        Ok("false".to_owned())
    } else {
        Err(ValueCoerceError::InvalidBoolean { raw: string_of(t) })
    }
}

/// Normalizes an integer: parsed as an `i64` and written back.
fn coerce_integer(t: &Vec<char>) -> (r: Result<String, ValueCoerceError>)
    ensures
        r matches Ok(v) ==> (parse_i64_spec(t@) matches Some(n) && v@ == decimal_int(n)),
        r matches Err(e) ==> parse_i64_spec(t@) is None && e@ == CoerceErrorView::InvalidInteger(
            t@,
        ),
{
    match parse_i64(t) {
        Some(n) => Ok(decimal_string_i64(n)),
        None => Err(ValueCoerceError::InvalidInteger { raw: string_of(t) }),
    }
}

/// Checks a decimal text and takes the caller's rendering of its value.
fn coerce_decimal(t: &Vec<char>, decimal: Option<String>) -> (r: Result<String, ValueCoerceError>)
    ensures
        r matches Ok(v) ==> is_float_text(t@) && !names_non_finite(t@) && (decimal matches Some(d) && v@ == d@),
        r matches Err(e) ==> (!is_float_text(t@) || names_non_finite(t@) || decimal is None) && e@
            == CoerceErrorView::InvalidDecimal(t@),
{
    if !is_float_text_exec(t) || names_non_finite_exec(t) {
        return Err(ValueCoerceError::InvalidDecimal { raw: string_of(t) });
    }
    match decimal {
        Some(d) => Ok(d),
        None => Err(ValueCoerceError::InvalidDecimal { raw: string_of(t) }),
    }
}

/// Brings a raw value into the declared type: booleans become `true` or
/// `false`, integers are written back in canonical decimal, decimals take
/// the rendering `decimal` the caller computed (see [`coerce_spec`]),
/// anything else is trimmed.
pub fn coerce_value_for_type(
    raw: &str,
    setting_type: Option<SettingTypeHint>,
    decimal: Option<String>,
) -> (r: Result<String, ValueCoerceError>)
    ensures
        r matches Ok(v) ==> coerce_spec(raw@, setting_type, decimal.deep_view()) == Ok::<
            Seq<char>,
            CoerceErrorView,
        >(v@),
        r matches Err(e) ==> coerce_spec(raw@, setting_type, decimal.deep_view()) == Err::<
            Seq<char>,
            CoerceErrorView,
        >(e@),
{
    let t = trim_chars(&chars_of(raw));
    proof {
        crate::text::lemma_trim_idempotent(raw@);
    }
    match setting_type {
        Some(SettingTypeHint::Boolean) => coerce_boolean(&t),
        Some(SettingTypeHint::Integer) => coerce_integer(&t),
        Some(SettingTypeHint::Decimal) => coerce_decimal(&t, decimal),
        _ => Ok(string_of(&t)),
    }
}

/// Checks what was typed into a number field: integers and decimals are
/// normalized as [`coerce_value_for_type`] does; other types are trimmed.
pub fn validate_numeric_input(
    raw: &str,
    setting_type: SettingTypeHint,
    decimal: Option<String>,
) -> (r: Result<String, ValueCoerceError>)
    ensures
        r matches Ok(v) ==> validate_spec(raw@, setting_type, decimal.deep_view()) == Ok::<
            Seq<char>,
            CoerceErrorView,
        >(v@),
        r matches Err(e) ==> validate_spec(raw@, setting_type, decimal.deep_view()) == Err::<
            Seq<char>,
            CoerceErrorView,
        >(e@),
{
    match setting_type {
        SettingTypeHint::Integer | SettingTypeHint::Decimal => coerce_value_for_type(
            raw,
            Some(setting_type),
            decimal,
        ),
        _ => Ok(trim_str_owned(raw)),
    }
}

/// `raw.trim().to_string()`.
fn trim_str_owned(raw: &str) -> (r: String)
    ensures
        r@ == trim(raw@),
{
    crate::text::trim_str(raw)
}

// ---------------------------------------------------------------------------
// Document operations
// ---------------------------------------------------------------------------

/// The setting on line `idx`, as the editor lists it.
pub open spec fn setting_of_line(ls: Seq<LineView>, idx: int) -> Option<SettingView> {
    if 0 <= idx < ls.len() && ls[idx] is Setting {
        Some(setting_at(scan_lines(ls.take(idx)), ls[idx]->key, ls[idx]->value, idx))
    } else {
        None
    }
}

/// Result and new lines of reverting line `idx` to its default.
pub open spec fn revert_spec(ls: Seq<LineView>, idx: int, decimal: Option<Seq<char>>) -> (Result<
    bool,
    CoerceErrorView,
>, Seq<LineView>) {
    match setting_of_line(ls, idx) {
        None => (Ok(false), ls),
        Some(s) => if !s.can_revert {
            (Ok(false), ls)
        } else {
            match s.metadata.default_value {
                None => (Ok(false), ls),
                Some(d) => match coerce_spec(d, s.metadata.setting_type, decimal) {
                    Err(e) => (Err(e), ls),
                    Ok(c) => (Ok(true), ls.update(idx, LineView::Setting { key: s.key, value: c })),
                },
            }
        },
    }
}

/// The settings before line `i` all come from lines before `i`.
proof fn lemma_scan_indices(ls: Seq<LineView>)
    ensures
        forall|k: int|
            0 <= k < scan_lines(ls).settings.len() ==> 0 <= #[trigger] scan_lines(ls).settings[k].line_index
                < ls.len(),
    decreases ls.len(),
{
    if ls.len() > 0 {
        lemma_scan_indices(ls.drop_last());
    }
}

impl ConfigDocument {
    /// Scans the first `upto` lines.
    fn scan_prefix(&self, upto: usize) -> (r: (String, Vec<String>, Vec<EditableSetting>))
        requires
            upto <= self.lines.len(),
            hints_cuttable(self@),
        ensures
            r.0@ == scan_lines(self@.take(upto as int)).section,
            r.1.deep_view() == scan_lines(self@.take(upto as int)).comments,
            r.2@.map_values(|e: EditableSetting| e@) == scan_lines(self@.take(upto as int)).settings,
    {
        let mut section = String::new();
        let mut comments: Vec<String> = Vec::new();
        let mut settings: Vec<EditableSetting> = Vec::new();
        let mut i: usize = 0;
        proof {
            assert(self@.take(0) =~= Seq::<LineView>::empty());
            assert(comments.deep_view() =~= Seq::<Seq<char>>::empty());
            assert(settings@.map_values(|e: EditableSetting| e@) =~= Seq::<SettingView>::empty());
        }
        while i < upto
            invariant
                i <= upto <= self.lines.len(),
                hints_cuttable(self@),
                section@ == scan_lines(self@.take(i as int)).section,
                comments.deep_view() == scan_lines(self@.take(i as int)).comments,
                settings@.map_values(|e: EditableSetting| e@) == scan_lines(self@.take(i as int)).settings,
            decreases upto - i,
        {
            let ghost st = scan_lines(self@.take(i as int));
            proof {
                let ls = self@.take(i as int + 1);
                assert(ls.drop_last() =~= self@.take(i as int));
                assert(ls.last() == self.lines@[i as int]@);
            }
            match &self.lines[i] {
                ConfigLine::Blank => {
                    comments = Vec::new();
                    proof {
                        assert(comments.deep_view() =~= Seq::<Seq<char>>::empty());
                    }
                },
                ConfigLine::Comment(text) => {
                    comments.push(text.clone());
                    proof {
                        assert(comments.deep_view() =~= st.comments.push(text@));
                    }
                },
                ConfigLine::Section(name) => {
                    section = name.clone();
                    comments = Vec::new();
                    proof {
                        assert(comments.deep_view() =~= Seq::<Seq<char>>::empty());
                    }
                },
                ConfigLine::Setting { key, value } => {
                    proof {
                        assert(self@[i as int] is Setting);
                        assert forall|j: int| 0 <= j < comments.len() implies hint_line_cuttable(
                            #[trigger] comments@[j]@,
                        ) by {
                            assert(comments.deep_view()[j] == comments@[j]@);
                            assert(self@[i as int] == self@[i as int]);
                            assert(scan_lines(self@.take(i as int)).comments[j] == comments@[j]@);
                        }
                    }
                    let metadata = SettingMetadata::from_comment_lines(&comments);
                    let widget = SettingWidget::from_metadata(&metadata);
                    let can_revert = metadata.default_value.is_some() && metadata.has_hint_lines;
                    let entry = EditableSetting {
                        section: section.clone(),
                        key: key.clone(),
                        value: value.clone(),
                        line_index: i,
                        metadata,
                        widget,
                        can_revert,
                    };
                    settings.push(entry);
                    comments = Vec::new();
                    proof {
                        assert(comments.deep_view() =~= Seq::<Seq<char>>::empty());
                        assert(settings@.map_values(|e: EditableSetting| e@) =~= st.settings.push(
                            setting_at(st, key@, value@, i as int),
                        ));
                    }
                },
            }
            i += 1;
        }
        (section, comments, settings)
    }

    /// The settings of the document in file order, each with the hints of
    /// the comment lines right above it, its widget, and whether it can be
    /// reverted (it has hint lines and a default value).
    pub fn editable_settings(&self) -> (r: Vec<EditableSetting>)
        requires
            hints_cuttable(self@),
        ensures
            r@.map_values(|e: EditableSetting| e@) == settings_spec(self@),
    {
        let (_, _, settings) = self.scan_prefix(self.lines.len());
        proof {
            assert(self@.take(self.lines.len() as int) =~= self@);
        }
        settings
    }

    /// Replaces the value of the setting on line `line_index`; returns
    /// whether that line is a setting. Other lines are left as they are.
    pub fn set_value(&mut self, line_index: usize, value: String) -> (r: bool)
        ensures
            r == (line_index < old(self).lines.len() && old(self)@[line_index as int] is Setting),
            r ==> final(self)@ == old(self)@.update(
                line_index as int,
                LineView::Setting { key: old(self)@[line_index as int]->key, value: value@ },
            ),
            !r ==> final(self)@ == old(self)@,
    {
        if line_index >= self.lines.len() {
            return false;
        }
        let key = match &self.lines[line_index] {
            ConfigLine::Setting { key, .. } => key.clone(),
            _ => return false,
        };
        self.lines.set(line_index, ConfigLine::Setting { key, value });
        proof {
            assert(self@ =~= old(self)@.update(
                line_index as int,
                LineView::Setting { key: old(self)@[line_index as int]->key, value: value@ },
            ));
        }
        true
    }

    /// Sets a flags setting to the selected names joined with `", "`.
    pub fn set_flags_values(&mut self, line_index: usize, selected: &Vec<String>) -> (r: bool)
        ensures
            r == (line_index < old(self).lines.len() && old(self)@[line_index as int] is Setting),
            r ==> final(self)@ == old(self)@.update(
                line_index as int,
                LineView::Setting {
                    key: old(self)@[line_index as int]->key,
                    value: join_comma(selected.deep_view()),
                },
            ),
            !r ==> final(self)@ == old(self)@,
    {
        let joined = join_flags_values(selected);
        self.set_value(line_index, joined)
    }

    /// Resets the setting on line `line_index` to its declared default,
    /// brought into the declared type (see [`coerce_value_for_type`] for
    /// `decimal`). `Ok(false)` when the line is not a setting that can be
    /// reverted; an error when the default does not fit the type.
    pub fn revert_setting_to_default(&mut self, line_index: usize, decimal: Option<String>) -> (r:
        Result<bool, ValueCoerceError>)
        requires
            hints_cuttable(old(self)@),
        ensures
            ({
                let (res, after) = revert_spec(old(self)@, line_index as int, decimal.deep_view());
                &&& final(self)@ == after
                &&& match r {
                    Ok(b) => res == Ok::<bool, CoerceErrorView>(b),
                    Err(e) => res == Err::<bool, CoerceErrorView>(e@),
                }
            }),
    {
        if line_index >= self.lines.len() {
            return Ok(false);
        }
        let is_setting = match &self.lines[line_index] {
            ConfigLine::Setting { .. } => true,
            _ => false,
        };
        if !is_setting {
            return Ok(false);
        }
        let (section, comments, _) = self.scan_prefix(line_index);
        proof {
            let ls = self@;
            assert forall|j: int| 0 <= j < comments.len() implies hint_line_cuttable(
                #[trigger] comments@[j]@,
            ) by {
                assert(comments.deep_view()[j] == comments@[j]@);
                assert(ls[line_index as int] is Setting);
                assert(scan_lines(ls.take(line_index as int)).comments[j] == comments@[j]@);
            }
        }
        let metadata = SettingMetadata::from_comment_lines(&comments);
        let can_revert = metadata.default_value.is_some() && metadata.has_hint_lines;
        if !can_revert {
            return Ok(false);
        }
        let raw_default = match &metadata.default_value {
            Some(d) => d.clone(),
            None => return Ok(false),
        };
        let coerced = coerce_value_for_type(raw_default.as_str(), metadata.setting_type, decimal);
        match coerced {
            Ok(c) => Ok(self.set_value(line_index, c)),
            Err(e) => Err(e),
        }
    }
}

/// The text shown for a value that could not be read.
pub open spec fn coerce_error_text(e: ValueCoerceError) -> Seq<char> {
    match e {
        ValueCoerceError::InvalidBoolean { raw } => "expected true or false, got '"@ + raw@ + "'"@,
        ValueCoerceError::InvalidInteger { raw } => "expected an integer, got '"@ + raw@ + "'"@,
        ValueCoerceError::InvalidDecimal { raw } => "expected a number, got '"@ + raw@ + "'"@,
    }
}

impl ValueCoerceError {
    /// The error as shown to the user.
    pub fn message(&self) -> (r: String)
        ensures
            r@ == coerce_error_text(*self),
    {
        match self {
            ValueCoerceError::InvalidBoolean { raw } => {
                let mut r = String::new();
                crate::text::append_str(&mut r, "expected true or false, got '");
                crate::text::append_str(&mut r, raw.as_str());
                crate::text::append_str(&mut r, "'");
                r
            },
            ValueCoerceError::InvalidInteger { raw } => {
                let mut r = String::new();
                crate::text::append_str(&mut r, "expected an integer, got '");
                crate::text::append_str(&mut r, raw.as_str());
                crate::text::append_str(&mut r, "'");
                r
            },
            ValueCoerceError::InvalidDecimal { raw } => {
                let mut r = String::new();
                crate::text::append_str(&mut r, "expected a number, got '");
                crate::text::append_str(&mut r, raw.as_str());
                crate::text::append_str(&mut r, "'");
                r
            },
        }
    }
}

} // verus!
