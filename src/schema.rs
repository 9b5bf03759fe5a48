//! The bilingual commit message and changelog, and how they are read from JSON.
use vstd::prelude::*;
use crate::json::{JsonValue, find_member, member, parse_json, json_document};

verus! {

/// A structured, bilingual conventional-commit message.
#[derive(Debug, Clone, PartialEq)]
pub struct CommitMessage {
    pub commit_type: String,
    pub scope: Option<String>,
    pub description: String,
    pub description_en: String,
    pub body: Option<Vec<String>>,
    pub body_en: Option<Vec<String>>,
    pub breaking_change: Option<String>,
}

pub struct CommitMessageView {
    pub commit_type: Seq<char>,
    pub scope: Option<Seq<char>>,
    pub description: Seq<char>,
    pub description_en: Seq<char>,
    pub body: Option<Seq<Seq<char>>>,
    pub body_en: Option<Seq<Seq<char>>>,
    pub breaking_change: Option<Seq<char>>,
}

/// The four groups of a changelog.
#[derive(Debug, Clone, PartialEq)]
pub struct ChangelogCategories {
    pub features: Vec<String>,
    pub fixes: Vec<String>,
    pub improvements: Vec<String>,
    pub others: Vec<String>,
}

pub struct ChangelogCategoriesView {
    pub features: Seq<Seq<char>>,
    pub fixes: Seq<Seq<char>>,
    pub improvements: Seq<Seq<char>>,
    pub others: Seq<Seq<char>>,
}

/// A bilingual summary of a range of commits.
#[derive(Debug, Clone, PartialEq)]
pub struct ChangelogSummary {
    pub title: String,
    pub title_en: String,
    pub highlights: Vec<String>,
    pub highlights_en: Vec<String>,
    pub categories: ChangelogCategories,
}

pub struct ChangelogSummaryView {
    pub title: Seq<char>,
    pub title_en: Seq<char>,
    pub highlights: Seq<Seq<char>>,
    pub highlights_en: Seq<Seq<char>>,
    pub categories: ChangelogCategoriesView,
}

/// Why a JSON document could not be read as a commit message or changelog.
#[derive(Debug, Clone, PartialEq)]
pub enum SchemaError {
    /// The text is not a JSON document.
    InvalidJson,
    /// The document is not a JSON object.
    NotAnObject,
    /// A required member is absent.
    MissingField(String),
    /// A member holds a value of a type that no rule accepts.
    InvalidField(String),
    /// Two members name the same field.
    DuplicateField(String),
}

pub enum SchemaErrorView {
    InvalidJson,
    NotAnObject,
    MissingField(Seq<char>),
    InvalidField(Seq<char>),
    DuplicateField(Seq<char>),
}

pub open spec fn texts(v: Seq<String>) -> Seq<Seq<char>> {
    v.map_values(|s: String| s@)
}

pub open spec fn opt_text(o: Option<String>) -> Option<Seq<char>> {
    match o {
        Some(s) => Some(s@),
        None => None,
    }
}

pub open spec fn opt_texts(o: Option<Vec<String>>) -> Option<Seq<Seq<char>>> {
    match o {
        Some(v) => Some(texts(v@)),
        None => None,
    }
}

impl View for CommitMessage {
    type V = CommitMessageView;

    open spec fn view(&self) -> CommitMessageView {
        CommitMessageView {
            commit_type: self.commit_type@,
            scope: opt_text(self.scope),
            description: self.description@,
            description_en: self.description_en@,
            body: opt_texts(self.body),
            body_en: opt_texts(self.body_en),
            breaking_change: opt_text(self.breaking_change),
        }
    }
}

impl View for ChangelogCategories {
    type V = ChangelogCategoriesView;

    open spec fn view(&self) -> ChangelogCategoriesView {
        ChangelogCategoriesView {
            features: texts(self.features@),
            fixes: texts(self.fixes@),
            improvements: texts(self.improvements@),
            others: texts(self.others@),
        }
    }
}

impl View for ChangelogSummary {
    type V = ChangelogSummaryView;

    open spec fn view(&self) -> ChangelogSummaryView {
        ChangelogSummaryView {
            title: self.title@,
            title_en: self.title_en@,
            highlights: texts(self.highlights@),
            highlights_en: texts(self.highlights_en@),
            categories: self.categories@,
        }
    }
}

impl View for SchemaError {
    type V = SchemaErrorView;

    open spec fn view(&self) -> SchemaErrorView {
        match self {
            SchemaError::InvalidJson => SchemaErrorView::InvalidJson,
            SchemaError::NotAnObject => SchemaErrorView::NotAnObject,
            SchemaError::MissingField(f) => SchemaErrorView::MissingField(f@),
            SchemaError::InvalidField(f) => SchemaErrorView::InvalidField(f@),
            SchemaError::DuplicateField(f) => SchemaErrorView::DuplicateField(f@),
        }
    }
}

/// The text that `true` in a breaking-change member stands for.
pub open spec fn breaking_sentinel() -> Seq<char> {
    "Breaking change"@
}

/// Whether every item of `a` is a JSON string.
pub open spec fn all_strings(a: Seq<JsonValue>) -> bool {
    forall|i: int| 0 <= i < a.len() ==> (#[trigger] a[i]) is Str
}

/// The texts of the JSON strings in `a`.
pub open spec fn strings_of(a: Seq<JsonValue>) -> Seq<Seq<char>> {
    a.map_values(
        |v: JsonValue|
            match v {
                JsonValue::Str(s) => s@,
                _ => Seq::empty(),
            },
    )
}

/// A JSON array of strings.
pub open spec fn string_list(v: JsonValue) -> Option<Seq<Seq<char>>> {
    match v {
        JsonValue::Array(a) => if all_strings(a@) {
            Some(strings_of(a@))
        } else {
            None
        },
        _ => None,
    }
}

/// A member that must be present and hold a string.
pub open spec fn required_text(m: Option<JsonValue>, key: Seq<char>) -> Result<
    Seq<char>,
    SchemaErrorView,
> {
    match m {
        None => Err(SchemaErrorView::MissingField(key)),
        Some(JsonValue::Str(s)) => Ok(s@),
        Some(_) => Err(SchemaErrorView::InvalidField(key)),
    }
}

/// A member that may be absent or null, or hold a string.
pub open spec fn optional_text(m: Option<JsonValue>, key: Seq<char>) -> Result<
    Option<Seq<char>>,
    SchemaErrorView,
> {
    match m {
        None => Ok(None),
        Some(JsonValue::Null) => Ok(None),
        Some(JsonValue::Str(s)) => Ok(Some(s@)),
        Some(_) => Err(SchemaErrorView::InvalidField(key)),
    }
}

/// A member that may be absent, standing then for the empty string.
pub open spec fn defaulted_text(m: Option<JsonValue>, key: Seq<char>) -> Result<
    Seq<char>,
    SchemaErrorView,
> {
    match m {
        None => Ok(Seq::empty()),
        Some(JsonValue::Str(s)) => Ok(s@),
        Some(_) => Err(SchemaErrorView::InvalidField(key)),
    }
}

/// A body-like member: one string is a one-line body, an array of strings is
/// the body, null or absence is no body.
pub open spec fn body_value(m: Option<JsonValue>, key: Seq<char>) -> Result<
    Option<Seq<Seq<char>>>,
    SchemaErrorView,
> {
    match m {
        None => Ok(None),
        Some(JsonValue::Null) => Ok(None),
        Some(JsonValue::Str(s)) => Ok(Some(seq![s@])),
        Some(v) => match string_list(v) {
            Some(l) => Ok(Some(l)),
            None => Err(SchemaErrorView::InvalidField(key)),
        },
    }
}

/// A member that may be absent or null, or hold an array of strings.
pub open spec fn optional_list(m: Option<JsonValue>, key: Seq<char>) -> Result<
    Option<Seq<Seq<char>>>,
    SchemaErrorView,
> {
    match m {
        None => Ok(None),
        Some(JsonValue::Null) => Ok(None),
        Some(v) => match string_list(v) {
            Some(l) => Ok(Some(l)),
            None => Err(SchemaErrorView::InvalidField(key)),
        },
    }
}

/// A member that must be present and hold an array of strings.
pub open spec fn required_list(m: Option<JsonValue>, key: Seq<char>) -> Result<
    Seq<Seq<char>>,
    SchemaErrorView,
> {
    match m {
        None => Err(SchemaErrorView::MissingField(key)),
        Some(v) => match string_list(v) {
            Some(l) => Ok(l),
            None => Err(SchemaErrorView::InvalidField(key)),
        },
    }
}

/// A member that may be absent, standing then for the empty list.
pub open spec fn defaulted_list(m: Option<JsonValue>, key: Seq<char>) -> Result<
    Seq<Seq<char>>,
    SchemaErrorView,
> {
    match m {
        None => Ok(Seq::empty()),
        Some(v) => match string_list(v) {
            Some(l) => Ok(l),
            None => Err(SchemaErrorView::InvalidField(key)),
        },
    }
}

/// A breaking-change member: `false`, null or absence is none, `true` is the
/// fixed sentinel text, a string is kept as it is.
pub open spec fn breaking_value(m: Option<JsonValue>, key: Seq<char>) -> Result<
    Option<Seq<char>>,
    SchemaErrorView,
> {
    match m {
        None => Ok(None),
        Some(JsonValue::Null) => Ok(None),
        Some(JsonValue::Bool(b)) => if b {
            Ok(Some(breaking_sentinel()))
        } else {
            Ok(None)
        },
        Some(JsonValue::Str(s)) => Ok(Some(s@)),
        Some(_) => Err(SchemaErrorView::InvalidField(key)),
    }
}

/// The commit type, named `commit_type` or `type`, but not both.
pub open spec fn commit_type_value(members: Seq<(String, JsonValue)>) -> Result<
    Seq<char>,
    SchemaErrorView,
> {
    let a = member(members, "commit_type"@);
    let b = member(members, "type"@);
    if a is Some && b is Some {
        Err(SchemaErrorView::DuplicateField("commit_type"@))
    } else if a is Some {
        required_text(a, "commit_type"@)
    } else {
        required_text(b, "commit_type"@)
    }
}

/// The commit message that a JSON document describes.
pub open spec fn commit_from_json(v: JsonValue) -> Result<CommitMessageView, SchemaErrorView> {
    match v {
        JsonValue::Object(members) => {
            let m = members@;
            let commit_type = commit_type_value(m);
            let scope = optional_text(member(m, "scope"@), "scope"@);
            let description = required_text(member(m, "description"@), "description"@);
            let description_en = defaulted_text(
                member(m, "description_en"@),
                "description_en"@,
            );
            let body = body_value(member(m, "body"@), "body"@);
            let body_en = optional_list(member(m, "body_en"@), "body_en"@);
            let breaking = breaking_value(member(m, "breaking_change"@), "breaking_change"@);
            if let Err(e) = commit_type {
                Err(e)
            } else if let Err(e) = scope {
                Err(e)
            } else if let Err(e) = description {
                Err(e)
            } else if let Err(e) = description_en {
                Err(e)
            } else if let Err(e) = body {
                Err(e)
            } else if let Err(e) = body_en {
                Err(e)
            } else if let Err(e) = breaking {
                Err(e)
            } else {
                Ok(
                    CommitMessageView {
                        commit_type: commit_type->Ok_0,
                        scope: scope->Ok_0,
                        description: description->Ok_0,
                        description_en: description_en->Ok_0,
                        body: body->Ok_0,
                        body_en: body_en->Ok_0,
                        breaking_change: breaking->Ok_0,
                    },
                )
            }
        },
        _ => Err(SchemaErrorView::NotAnObject),
    }
}

/// The four groups that a JSON document describes.
pub open spec fn categories_from_json(v: JsonValue) -> Result<
    ChangelogCategoriesView,
    SchemaErrorView,
> {
    match v {
        JsonValue::Object(members) => {
            let m = members@;
            let features = defaulted_list(member(m, "features"@), "features"@);
            let fixes = defaulted_list(member(m, "fixes"@), "fixes"@);
            let improvements = defaulted_list(member(m, "improvements"@), "improvements"@);
            let others = defaulted_list(member(m, "others"@), "others"@);
            if let Err(e) = features {
                Err(e)
            } else if let Err(e) = fixes {
                Err(e)
            } else if let Err(e) = improvements {
                Err(e)
            } else if let Err(e) = others {
                Err(e)
            } else {
                Ok(
                    ChangelogCategoriesView {
                        features: features->Ok_0,
                        fixes: fixes->Ok_0,
                        improvements: improvements->Ok_0,
                        others: others->Ok_0,
                    },
                )
            }
        },
        _ => Err(SchemaErrorView::InvalidField("categories"@)),
    }
}

/// The changelog that a JSON document describes.
pub open spec fn changelog_from_json(v: JsonValue) -> Result<
    ChangelogSummaryView,
    SchemaErrorView,
> {
    match v {
        JsonValue::Object(members) => {
            let m = members@;
            let title = required_text(member(m, "title"@), "title"@);
            let title_en = required_text(member(m, "title_en"@), "title_en"@);
            let highlights = required_list(member(m, "highlights"@), "highlights"@);
            let highlights_en = required_list(member(m, "highlights_en"@), "highlights_en"@);
            let categories = match member(m, "categories"@) {
                None => Err(SchemaErrorView::MissingField("categories"@)),
                Some(c) => categories_from_json(c),
            };
            if let Err(e) = title {
                Err(e)
            } else if let Err(e) = title_en {
                Err(e)
            } else if let Err(e) = highlights {
                Err(e)
            } else if let Err(e) = highlights_en {
                Err(e)
            } else if let Err(e) = categories {
                Err(e)
            } else {
                Ok(
                    ChangelogSummaryView {
                        title: title->Ok_0,
                        title_en: title_en->Ok_0,
                        highlights: highlights->Ok_0,
                        highlights_en: highlights_en->Ok_0,
                        categories: categories->Ok_0,
                    },
                )
            }
        },
        _ => Err(SchemaErrorView::NotAnObject),
    }
}

/// The commit message that `text` describes, as JSON.
pub open spec fn commit_from_text(text: Seq<char>) -> Result<CommitMessageView, SchemaErrorView> {
    match json_document(text) {
        Some(v) => commit_from_json(v),
        None => Err(SchemaErrorView::InvalidJson),
    }
}

/// The changelog that `text` describes, as JSON.
pub open spec fn changelog_from_text(text: Seq<char>) -> Result<
    ChangelogSummaryView,
    SchemaErrorView,
> {
    match json_document(text) {
        Some(v) => changelog_from_json(v),
        None => Err(SchemaErrorView::InvalidJson),
    }
}

pub open spec fn result_view<T: View, E: View>(r: Result<T, E>) -> Result<T::V, E::V> {
    match r {
        Ok(t) => Ok(t@),
        Err(e) => Err(e@),
    }
}

/// An owned copy of `s`.
pub fn owned(s: &str) -> (r: String)
    ensures
        r@ == s@,
{
    s.to_owned()
}

/// The strings of `a`, if every item is a string.
fn strings_from(a: &Vec<JsonValue>) -> (r: Option<Vec<String>>)
    ensures
        r is Some <==> all_strings(a@),
        r matches Some(l) ==> texts(l@) == strings_of(a@),
{
    let mut out: Vec<String> = Vec::new();
    let mut i: usize = 0;
    while i < a.len()
        invariant
            i <= a@.len(),
            forall|k: int| 0 <= k < i ==> (#[trigger] a@[k]) is Str,
            texts(out@) == strings_of(a@).take(i as int),
        decreases a@.len() - i,
    {
        match &a[i] {
            JsonValue::Str(s) => {
                let ghost before = out@;
                let c = s.clone();
                out.push(c);
                assert(out@ == before.push(c));
                assert(texts(out@) =~= texts(before).push(s@));
                assert(strings_of(a@).take(i + 1) =~= strings_of(a@).take(i as int).push(s@));
            },
            _ => {
                return None;
            },
        }
        i = i + 1;
    }
    assert(strings_of(a@).take(a@.len() as int) =~= strings_of(a@));
    Some(out)
}

/// The strings of a JSON array of strings.
pub fn string_list_value(v: &JsonValue) -> (r: Option<Vec<String>>)
    ensures
        opt_texts(r) == string_list(*v),
{
    match v {
        JsonValue::Array(a) => strings_from(a),
        _ => None,
    }
}

fn required_text_exec(m: Option<&JsonValue>, key: &str) -> (r: Result<String, SchemaError>)
    ensures
        match required_text(opt_node(m), key@) {
            Ok(t) => r matches Ok(s) && s@ == t,
            Err(e) => r matches Err(x) && x@ == e,
        },
{
    match m {
        None => Err(SchemaError::MissingField(owned(key))),
        Some(JsonValue::Str(s)) => Ok(s.clone()),
        Some(_) => Err(SchemaError::InvalidField(owned(key))),
    }
}

fn optional_text_exec(m: Option<&JsonValue>, key: &str) -> (r: Result<
    Option<String>,
    SchemaError,
>)
    ensures
        match optional_text(opt_node(m), key@) {
            Ok(t) => r matches Ok(s) && opt_text(s) == t,
            Err(e) => r matches Err(x) && x@ == e,
        },
{
    match m {
        None => Ok(None),
        Some(JsonValue::Null) => Ok(None),
        Some(JsonValue::Str(s)) => Ok(Some(s.clone())),
        Some(_) => Err(SchemaError::InvalidField(owned(key))),
    }
}

fn defaulted_text_exec(m: Option<&JsonValue>, key: &str) -> (r: Result<String, SchemaError>)
    ensures
        match defaulted_text(opt_node(m), key@) {
            Ok(t) => r matches Ok(s) && s@ == t,
            Err(e) => r matches Err(x) && x@ == e,
        },
{
    match m {
        None => Ok(String::new()),
        Some(JsonValue::Str(s)) => Ok(s.clone()),
        Some(_) => Err(SchemaError::InvalidField(owned(key))),
    }
}

/// Reads a body-like member: one string is a one-line body, an array of
/// strings is the body, null or absence is no body.
pub fn body_from_json(m: Option<&JsonValue>, key: &str) -> (r: Result<
    Option<Vec<String>>,
    SchemaError,
>)
    ensures
        match body_value(opt_node(m), key@) {
            Ok(t) => r matches Ok(s) && opt_texts(s) == t,
            Err(e) => r matches Err(x) && x@ == e,
        },
{
    match m {
        None => Ok(None),
        Some(JsonValue::Null) => Ok(None),
        Some(JsonValue::Str(s)) => {
            let mut v: Vec<String> = Vec::new();
            v.push(s.clone());
            assert(texts(v@) =~= seq![s@]);
            Ok(Some(v))
        },
        Some(v) => match string_list_value(v) {
            Some(l) => Ok(Some(l)),
            None => Err(SchemaError::InvalidField(owned(key))),
        },
    }
}

fn optional_list_exec(m: Option<&JsonValue>, key: &str) -> (r: Result<
    Option<Vec<String>>,
    SchemaError,
>)
    ensures
        match optional_list(opt_node(m), key@) {
            Ok(t) => r matches Ok(s) && opt_texts(s) == t,
            Err(e) => r matches Err(x) && x@ == e,
        },
{
    match m {
        None => Ok(None),
        Some(JsonValue::Null) => Ok(None),
        Some(v) => match string_list_value(v) {
            Some(l) => Ok(Some(l)),
            None => Err(SchemaError::InvalidField(owned(key))),
        },
    }
}

fn required_list_exec(m: Option<&JsonValue>, key: &str) -> (r: Result<Vec<String>, SchemaError>)
    ensures
        match required_list(opt_node(m), key@) {
            Ok(t) => r matches Ok(s) && texts(s@) == t,
            Err(e) => r matches Err(x) && x@ == e,
        },
{
    match m {
        None => Err(SchemaError::MissingField(owned(key))),
        Some(v) => match string_list_value(v) {
            Some(l) => Ok(l),
            None => Err(SchemaError::InvalidField(owned(key))),
        },
    }
}

fn defaulted_list_exec(m: Option<&JsonValue>, key: &str) -> (r: Result<Vec<String>, SchemaError>)
    ensures
        match defaulted_list(opt_node(m), key@) {
            Ok(t) => r matches Ok(s) && texts(s@) == t,
            Err(e) => r matches Err(x) && x@ == e,
        },
{
    match m {
        None => {
            let v: Vec<String> = Vec::new();
            assert(texts(v@) =~= Seq::empty());
            Ok(v)
        },
        Some(v) => match string_list_value(v) {
            Some(l) => Ok(l),
            None => Err(SchemaError::InvalidField(owned(key))),
        },
    }
}

/// Reads a breaking-change member: `false`, null or absence is none, `true`
/// is the fixed sentinel text, a string is kept as it is.
pub fn breaking_change_from_json(m: Option<&JsonValue>, key: &str) -> (r: Result<
    Option<String>,
    SchemaError,
>)
    ensures
        match breaking_value(opt_node(m), key@) {
            Ok(t) => r matches Ok(s) && opt_text(s) == t,
            Err(e) => r matches Err(x) && x@ == e,
        },
{
    match m {
        None => Ok(None),
        Some(JsonValue::Null) => Ok(None),
        Some(JsonValue::Bool(b)) => if *b {
            Ok(Some(owned("Breaking change")))
        } else {
            Ok(None)
        },
        Some(JsonValue::Str(s)) => Ok(Some(s.clone())),
        Some(_) => Err(SchemaError::InvalidField(owned(key))),
    }
}

/// The node that an optional reference points to.
pub open spec fn opt_node(m: Option<&JsonValue>) -> Option<JsonValue> {
    match m {
        Some(v) => Some(*v),
        None => None,
    }
}

impl CommitMessage {
    /// Reads a commit message from a JSON document, by the lenient rules.
    pub fn from_json(v: &JsonValue) -> (r: Result<CommitMessage, SchemaError>)
        ensures
            match commit_from_json(*v) {
                Ok(t) => r matches Ok(c) && c@ == t,
                Err(e) => r matches Err(x) && x@ == e,
            },
    {
        let members = match v {
            JsonValue::Object(members) => members,
            _ => {
                return Err(SchemaError::NotAnObject);
            },
        };
        let a = find_member(members, "commit_type");
        let b = find_member(members, "type");
        let commit_type = if a.is_some() && b.is_some() {
            return Err(SchemaError::DuplicateField(owned("commit_type")));
        } else if a.is_some() {
            required_text_exec(a, "commit_type")
        } else {
            required_text_exec(b, "commit_type")
        };
        let commit_type = match commit_type {
            Ok(t) => t,
            Err(e) => {
                return Err(e);
            },
        };
        let scope = match optional_text_exec(find_member(members, "scope"), "scope") {
            Ok(t) => t,
            Err(e) => {
                return Err(e);
            },
        };
        let description = match required_text_exec(
            find_member(members, "description"),
            "description",
        ) {
            Ok(t) => t,
            Err(e) => {
                return Err(e);
            },
        };
        let description_en = match defaulted_text_exec(
            find_member(members, "description_en"),
            "description_en",
        ) {
            Ok(t) => t,
            Err(e) => {
                return Err(e);
            },
        };
        let body = match body_from_json(find_member(members, "body"), "body") {
            Ok(t) => t,
            Err(e) => {
                return Err(e);
            },
        };
        let body_en = match optional_list_exec(find_member(members, "body_en"), "body_en") {
            Ok(t) => t,
            Err(e) => {
                return Err(e);
            },
        };
        let breaking_change = match breaking_change_from_json(
            find_member(members, "breaking_change"),
            "breaking_change",
        ) {
            Ok(t) => t,
            Err(e) => {
                return Err(e);
            },
        };
        Ok(
            CommitMessage {
                commit_type,
                scope,
                description,
                description_en,
                body,
                body_en,
                breaking_change,
            },
        )
    }

    /// Reads a commit message from JSON text.
    pub fn from_json_text(text: &str) -> (r: Result<CommitMessage, SchemaError>)
        ensures
            match commit_from_text(text@) {
                Ok(t) => r matches Ok(c) && c@ == t,
                Err(e) => r matches Err(x) && x@ == e,
            },
    {
        match parse_json(text) {
            Some(v) => CommitMessage::from_json(&v),
            None => Err(SchemaError::InvalidJson),
        }
    }
}

impl ChangelogCategories {
    /// Reads the four groups from a JSON object; an absent group is empty.
    pub fn from_json(v: &JsonValue) -> (r: Result<ChangelogCategories, SchemaError>)
        ensures
            match categories_from_json(*v) {
                Ok(t) => r matches Ok(c) && c@ == t,
                Err(e) => r matches Err(x) && x@ == e,
            },
    {
        let members = match v {
            JsonValue::Object(members) => members,
            _ => {
                return Err(SchemaError::InvalidField(owned("categories")));
            },
        };
        let features = match defaulted_list_exec(find_member(members, "features"), "features") {
            Ok(t) => t,
            Err(e) => {
                return Err(e);
            },
        };
        let fixes = match defaulted_list_exec(find_member(members, "fixes"), "fixes") {
            Ok(t) => t,
            Err(e) => {
                return Err(e);
            },
        };
        let improvements = match defaulted_list_exec(
            find_member(members, "improvements"),
            "improvements",
        ) {
            Ok(t) => t,
            Err(e) => {
                return Err(e);
            },
        };
        let others = match defaulted_list_exec(find_member(members, "others"), "others") {
            Ok(t) => t,
            Err(e) => {
                return Err(e);
            },
        };
        Ok(ChangelogCategories { features, fixes, improvements, others })
    }
}

impl ChangelogSummary {
    /// Reads a changelog from a JSON document.
    pub fn from_json(v: &JsonValue) -> (r: Result<ChangelogSummary, SchemaError>)
        ensures
            match changelog_from_json(*v) {
                Ok(t) => r matches Ok(c) && c@ == t,
                Err(e) => r matches Err(x) && x@ == e,
            },
    {
        let members = match v {
            JsonValue::Object(members) => members,
            _ => {
                return Err(SchemaError::NotAnObject);
            },
        };
        let title = match required_text_exec(find_member(members, "title"), "title") {
            Ok(t) => t,
            Err(e) => {
                return Err(e);
            },
        };
        let title_en = match required_text_exec(find_member(members, "title_en"), "title_en") {
            Ok(t) => t,
            Err(e) => {
                return Err(e);
            },
        };
        let highlights = match required_list_exec(
            find_member(members, "highlights"),
            "highlights",
        ) {
            Ok(t) => t,
            Err(e) => {
                return Err(e);
            },
        };
        let highlights_en = match required_list_exec(
            find_member(members, "highlights_en"),
            "highlights_en",
        ) {
            Ok(t) => t,
            Err(e) => {
                return Err(e);
            },
        };
        let categories = match find_member(members, "categories") {
            None => {
                return Err(SchemaError::MissingField(owned("categories")));
            },
            Some(c) => match ChangelogCategories::from_json(c) {
                Ok(t) => t,
                Err(e) => {
                    return Err(e);
                },
            },
        };
        Ok(ChangelogSummary { title, title_en, highlights, highlights_en, categories })
    }

    /// Reads a changelog from JSON text.
    pub fn from_json_text(text: &str) -> (r: Result<ChangelogSummary, SchemaError>)
        ensures
            match changelog_from_text(text@) {
                Ok(t) => r matches Ok(c) && c@ == t,
                Err(e) => r matches Err(x) && x@ == e,
            },
    {
        match parse_json(text) {
            Some(v) => ChangelogSummary::from_json(&v),
            None => Err(SchemaError::InvalidJson),
        }
    }
}

/// `v` is the JSON string `t`.
pub open spec fn json_text_is(v: JsonValue, t: Seq<char>) -> bool {
    v matches JsonValue::Str(s) && s@ == t
}

/// `v` is the JSON array of the strings `l`.
pub open spec fn json_list_is(v: JsonValue, l: Seq<Seq<char>>) -> bool {
    v matches JsonValue::Array(a) && all_strings(a@) && strings_of(a@) == l
}

/// `v` is what serializing `o` gives: null for none, else the string.
pub open spec fn json_opt_text_is(v: JsonValue, o: Option<Seq<char>>) -> bool {
    match o {
        None => v is Null,
        Some(t) => json_text_is(v, t),
    }
}

/// `v` is what serializing `o` gives: null for none, else the array.
pub open spec fn json_opt_list_is(v: JsonValue, o: Option<Seq<Seq<char>>>) -> bool {
    match o {
        None => v is Null,
        Some(l) => json_list_is(v, l),
    }
}

/// `members` is the JSON object that serializing `m` gives: one member per
/// field, under the field's own name.
pub open spec fn serializes_commit(members: Seq<(String, JsonValue)>, m: CommitMessageView) -> bool {
    &&& member(members, "commit_type"@) matches Some(v) && json_text_is(v, m.commit_type)
    &&& member(members, "type"@) is None
    &&& member(members, "scope"@) matches Some(v) && json_opt_text_is(v, m.scope)
    &&& member(members, "description"@) matches Some(v) && json_text_is(v, m.description)
    &&& member(members, "description_en"@) matches Some(v) && json_text_is(v, m.description_en)
    &&& member(members, "body"@) matches Some(v) && json_opt_list_is(v, m.body)
    &&& member(members, "body_en"@) matches Some(v) && json_opt_list_is(v, m.body_en)
    &&& member(members, "breaking_change"@) matches Some(v) && json_opt_text_is(
        v,
        m.breaking_change,
    )
}

/// Reading back what serializing a commit message gives yields the same
/// message: deserialization undoes serialization.
pub proof fn lemma_commit_round_trip(members: Vec<(String, JsonValue)>, m: CommitMessageView)
    requires
        serializes_commit(members@, m),
    ensures
        commit_from_json(JsonValue::Object(members)) == Ok::<CommitMessageView, SchemaErrorView>(m),
{
}

/// Reading is a function of the text: the same JSON text, read again, gives
/// the same commit message or changelog, or the same error.
pub proof fn lemma_reparse_same_value(first: Seq<char>, again: Seq<char>)
    requires
        first == again,
    ensures
        commit_from_text(first) == commit_from_text(again),
        changelog_from_text(first) == changelog_from_text(again),
{
}

/// A breaking-change member `true` reads as the fixed text
/// "Breaking change"; `false` or an absent member reads as none.
pub proof fn lemma_breaking_change_values(members: Vec<(String, JsonValue)>)
    requires
        commit_from_json(JsonValue::Object(members)) is Ok,
    ensures
        member(members@, "breaking_change"@) == Some(JsonValue::Bool(true)) ==> commit_from_json(
            JsonValue::Object(members),
        )->Ok_0.breaking_change == Some("Breaking change"@),
        member(members@, "breaking_change"@) == Some(JsonValue::Bool(false)) ==> commit_from_json(
            JsonValue::Object(members),
        )->Ok_0.breaking_change is None,
        member(members@, "breaking_change"@) is None ==> commit_from_json(
            JsonValue::Object(members),
        )->Ok_0.breaking_change is None,
{
}

} // verus!
