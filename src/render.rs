//! Rendering the records as text for display and for the commit.
use vstd::prelude::*;
use crate::schema::{ChangelogSummary, CommitMessage, texts};
use crate::text::push_all;

verus! {

/// What stands in for an English line that is missing.
pub const TRANSLATION_PLACEHOLDER: &'static str = "[Translation needed]";

/// A line list that may be absent, absent standing for no lines.
pub open spec fn lines_or_empty(o: Option<Vec<String>>) -> Seq<Seq<char>> {
    match o {
        Some(v) => texts(v@),
        None => Seq::empty(),
    }
}

/// The body entry at `i`: the Chinese line and a line feed if there is one,
/// then the English line, or the placeholder when only the Chinese one exists.
pub open spec fn body_entry(zh: Seq<Seq<char>>, en: Seq<Seq<char>>, i: int) -> Seq<char> {
    (if i < zh.len() {
        zh[i] + seq!['\n']
    } else {
        Seq::empty()
    }) + (if i < en.len() {
        en[i]
    } else if i < zh.len() {
        TRANSLATION_PLACEHOLDER@
    } else {
        Seq::empty()
    })
}

/// The first `k` body entries, separated by line feeds.
pub open spec fn body_text(zh: Seq<Seq<char>>, en: Seq<Seq<char>>, k: int) -> Seq<char>
    decreases k,
{
    if k <= 0 {
        Seq::empty()
    } else if k == 1 {
        body_entry(zh, en, 0)
    } else {
        body_text(zh, en, k - 1) + seq!['\n'] + body_entry(zh, en, k - 1)
    }
}

pub open spec fn max_len(a: Seq<Seq<char>>, b: Seq<Seq<char>>) -> int {
    if a.len() >= b.len() {
        a.len() as int
    } else {
        b.len() as int
    }
}

/// The rendered conventional commit: `type(scope): description`, the English
/// description on the next line, the bilingual body after a blank line when
/// there is one, and the breaking change after another.
pub open spec fn conventional_text(m: CommitMessage) -> Seq<char> {
    let header = m.commit_type@ + (match m.scope {
        Some(s) => seq!['('] + s@ + seq![')'],
        None => Seq::empty(),
    }) + ": "@ + m.description@ + seq!['\n'] + m.description_en@;
    let zh = lines_or_empty(m.body);
    let en = lines_or_empty(m.body_en);
    let body = if zh.len() > 0 || en.len() > 0 {
        "\n\n"@ + body_text(zh, en, max_len(zh, en))
    } else {
        Seq::empty()
    };
    let breaking = match m.breaking_change {
        Some(b) => "\n\n"@ + "BREAKING CHANGE: "@ + b@,
        None => Seq::empty(),
    };
    header + body + breaking
}

/// Each item as a bullet line.
pub open spec fn bullets(items: Seq<Seq<char>>) -> Seq<char>
    decreases items.len(),
{
    if items.len() == 0 {
        Seq::empty()
    } else {
        bullets(items.drop_last()) + "- "@ + items.last() + seq!['\n']
    }
}

/// The first `k` highlight pairs as `- zh / en` lines.
pub open spec fn pair_bullets(zh: Seq<Seq<char>>, en: Seq<Seq<char>>, k: int) -> Seq<char>
    decreases k,
{
    if k <= 0 {
        Seq::empty()
    } else {
        pair_bullets(zh, en, k - 1) + "- "@ + zh[k - 1] + " / "@ + en[k - 1] + seq!['\n']
    }
}

pub open spec fn min_len(a: Seq<Seq<char>>, b: Seq<Seq<char>>) -> int {
    if a.len() <= b.len() {
        a.len() as int
    } else {
        b.len() as int
    }
}

/// A section with a header and its items, or nothing when there are none.
pub open spec fn section(header: Seq<char>, items: Seq<Seq<char>>) -> Seq<char> {
    if items.len() == 0 {
        Seq::empty()
    } else {
        header + bullets(items) + seq!['\n']
    }
}

pub const HIGHLIGHTS_HEADER: &'static str = "### 亮点 / Highlights\n";

pub const FEATURES_HEADER: &'static str = "### ✨ 新功能 / Features\n";

pub const FIXES_HEADER: &'static str = "### 🐛 修复 / Fixes\n";

pub const IMPROVEMENTS_HEADER: &'static str = "### 🔧 改进 / Improvements\n";

pub const OTHERS_HEADER: &'static str = "### 📝 其他 / Others\n";

/// The rendered changelog: both titles, the highlights paired by position
/// (as many as both lists have), then each non-empty group.
pub open spec fn display_text(c: ChangelogSummary) -> Seq<char> {
    let zh = texts(c.highlights@);
    let en = texts(c.highlights_en@);
    "## "@ + c.title@ + seq!['\n'] + "## "@ + c.title_en@ + "\n\n"@ + (if zh.len() > 0 {
        HIGHLIGHTS_HEADER@ + pair_bullets(zh, en, min_len(zh, en)) + seq!['\n']
    } else {
        Seq::empty()
    }) + section(FEATURES_HEADER@, texts(c.categories.features@)) + section(
        FIXES_HEADER@,
        texts(c.categories.fixes@),
    ) + section(IMPROVEMENTS_HEADER@, texts(c.categories.improvements@)) + section(
        OTHERS_HEADER@,
        texts(c.categories.others@),
    )
}

fn empty_lines() -> (r: Vec<String>)
    ensures
        r@.len() == 0,
{
    Vec::new()
}

/// Appends the bilingual body entries of `zh` and `en`.
fn push_body(s: &mut String, zh: &Vec<String>, en: &Vec<String>)
    ensures
        final(s)@ == old(s)@ + body_text(
            texts(zh@),
            texts(en@),
            max_len(texts(zh@), texts(en@)),
        ),
{
    let n = if zh.len() >= en.len() {
        zh.len()
    } else {
        en.len()
    };
    let ghost z = texts(zh@);
    let ghost e = texts(en@);
    let ghost start = s@;
    let mut i: usize = 0;
    while i < n
        invariant
            i <= n,
            n == max_len(z, e),
            z == texts(zh@),
            e == texts(en@),
            s@ == start + body_text(z, e, i as int),
        decreases n - i,
    {
        if i > 0 {
            s.push('\n');
        }
        if i < zh.len() {
            push_all(s, zh[i].as_str());
            s.push('\n');
        }
        if i < en.len() {
            push_all(s, en[i].as_str());
        } else if i < zh.len() {
            push_all(s, TRANSLATION_PLACEHOLDER);
        }
        proof {
            if i == 0 {
                assert(s@ =~= start + body_text(z, e, 1));
            } else {
                assert(s@ =~= start + body_text(z, e, i + 1));
            }
        }
        i = i + 1;
    }
}

/// Appends each item as a bullet line.
fn push_bullets(s: &mut String, items: &Vec<String>)
    ensures
        final(s)@ == old(s)@ + bullets(texts(items@)),
{
    let ghost start = s@;
    let mut i: usize = 0;
    while i < items.len()
        invariant
            i <= items@.len(),
            s@ == start + bullets(texts(items@).take(i as int)),
        decreases items@.len() - i,
    {
        push_all(s, "- ");
        push_all(s, items[i].as_str());
        s.push('\n');
        proof {
            let t = texts(items@).take(i + 1);
            assert(t.drop_last() =~= texts(items@).take(i as int));
            assert(s@ =~= start + bullets(t));
        }
        i = i + 1;
    }
    assert(texts(items@).take(items@.len() as int) =~= texts(items@));
}

fn push_section(s: &mut String, header: &str, items: &Vec<String>)
    ensures
        final(s)@ == old(s)@ + section(header@, texts(items@)),
{
    if items.len() > 0 {
        push_all(s, header);
        push_bullets(s, items);
        s.push('\n');
        assert(final(s)@ =~= old(s)@ + section(header@, texts(items@)));
    } else {
        assert(section(header@, texts(items@)) =~= Seq::empty());
        assert(final(s)@ =~= old(s)@ + section(header@, texts(items@)));
    }
}

impl CommitMessage {
    /// Renders the message as a conventional commit: the header
    /// `type(scope): description`, then `description_en`; then, after a blank
    /// line, the body entry by entry (the Chinese line, then its English line
    /// or `[Translation needed]`); then, after a blank line,
    /// `BREAKING CHANGE: ` and its text.
    pub fn format_conventional(&self) -> (r: String)
        ensures
            r@ == conventional_text(*self),
    {
        let mut message = String::new();
        push_all(&mut message, self.commit_type.as_str());
        if let Some(scope) = &self.scope {
            message.push('(');
            push_all(&mut message, scope.as_str());
            message.push(')');
        }
        push_all(&mut message, ": ");
        push_all(&mut message, self.description.as_str());
        message.push('\n');
        push_all(&mut message, self.description_en.as_str());
        let none_zh = empty_lines();
        let none_en = empty_lines();
        let zh = match &self.body {
            Some(v) => v,
            None => &none_zh,
        };
        let en = match &self.body_en {
            Some(v) => v,
            None => &none_en,
        };
        assert(texts(zh@) =~= lines_or_empty(self.body));
        assert(texts(en@) =~= lines_or_empty(self.body_en));
        if zh.len() > 0 || en.len() > 0 {
            push_all(&mut message, "\n\n");
            push_body(&mut message, zh, en);
        }
        if let Some(breaking) = &self.breaking_change {
            push_all(&mut message, "\n\n");
            push_all(&mut message, "BREAKING CHANGE: ");
            push_all(&mut message, breaking.as_str());
        }
        assert(message@ =~= conventional_text(*self));
        message
    }
}

impl ChangelogSummary {
    /// Renders the changelog for display: the two titles as `## ` lines, the
    /// highlights as `- zh / en` pairs, then the features, fixes, improvements
    /// and other changes, each group only when it has items.
    pub fn format_display(&self) -> (r: String)
        ensures
            r@ == display_text(*self),
    {
        let mut output = String::new();
        push_all(&mut output, "## ");
        push_all(&mut output, self.title.as_str());
        output.push('\n');
        push_all(&mut output, "## ");
        push_all(&mut output, self.title_en.as_str());
        push_all(&mut output, "\n\n");
        let ghost titles = output@;
        let ghost zh = texts(self.highlights@);
        let ghost en = texts(self.highlights_en@);
        if self.highlights.len() > 0 {
            push_all(&mut output, HIGHLIGHTS_HEADER);
            let n = if self.highlights.len() <= self.highlights_en.len() {
                self.highlights.len()
            } else {
                self.highlights_en.len()
            };
            let ghost start = output@;
            let mut i: usize = 0;
            while i < n
                invariant
                    i <= n,
                    n == min_len(zh, en),
                    zh == texts(self.highlights@),
                    en == texts(self.highlights_en@),
                    output@ == start + pair_bullets(zh, en, i as int),
                decreases n - i,
            {
                push_all(&mut output, "- ");
                push_all(&mut output, self.highlights[i].as_str());
                push_all(&mut output, " / ");
                push_all(&mut output, self.highlights_en[i].as_str());
                output.push('\n');
                assert(output@ =~= start + pair_bullets(zh, en, i + 1));
                i = i + 1;
            }
            output.push('\n');
        }
        let ghost with_highlights = output@;
        assert(with_highlights =~= titles + (if zh.len() > 0 {
            HIGHLIGHTS_HEADER@ + pair_bullets(zh, en, min_len(zh, en)) + seq!['\n']
        } else {
            Seq::empty()
        }));
        push_section(&mut output, FEATURES_HEADER, &self.categories.features);
        push_section(&mut output, FIXES_HEADER, &self.categories.fixes);
        push_section(&mut output, IMPROVEMENTS_HEADER, &self.categories.improvements);
        push_section(&mut output, OTHERS_HEADER, &self.categories.others);
        assert(output@ =~= display_text(*self));
        output
    }
}

} // verus!
