//! The prompts sent to the provider.
use vstd::prelude::*;
use vstd::string::StringSliceAdditionalSpecFns;
use vstd::utf8::{
    decode_utf8, encode_utf8, encode_utf8_decode_utf8, encode_utf8_valid_utf8, is_char_boundary,
    valid_utf8,
};
use crate::git::{CommitInfo, date_text};
use crate::text::{decimal, push_all, push_decimal};

verus! {

/// How many bytes of the diff a commit prompt includes.
pub const DIFF_BUDGET: usize = 3000;

pub const COMMIT_PROMPT_INTRO: &'static str = "You are a Git commit message generator. Based on the following git diff, generate a bilingual (Chinese and English) structured commit message.\n\nContext:\n- Branch: ";

pub const COMMIT_PROMPT_FILES: &'static str = "\n- Files changed: ";

pub const COMMIT_PROMPT_ADDED: &'static str = "\n- Lines added: ";

pub const COMMIT_PROMPT_REMOVED: &'static str = "\n- Lines removed: ";

pub const COMMIT_PROMPT_DIFF: &'static str = "\n\nGit Diff:\n```\n";

pub const COMMIT_PROMPT_TAIL: &'static str = "\n```\n\nGenerate a commit message following the Conventional Commits specification with bilingual format:\n- type: feat, fix, docs, style, refactor, test, chore, perf\n- scope: optional, the component or area affected\n- description: 中文简要描述（50字符以内）\n- description_en: English brief description (50 chars or less)\n- body: 中文详细说明数组，每个元素是一条说明（如：\"添加了用户认证功能\"、\"优化了数据库查询性能\"）\n- body_en: English detailed explanation array, each element corresponds to Chinese version\n- breaking_change: optional, if there are breaking changes\n\nImportant requirements:\n1. description should be in Chinese, description_en should be its English translation\n2. body and body_en should be arrays of strings, each element is one point\n3. Each Chinese point in body should have a corresponding English translation in body_en\n4. Keep descriptions concise and clear\n\nRespond with a JSON object containing these fields. Example:\n{\n    \"type\": \"feat\",\n    \"scope\": \"auth\",\n    \"description\": \"添加用户认证功能\",\n    \"description_en\": \"Add user authentication feature\",\n    \"body\": [\"实现了JWT令牌验证\", \"添加了用户登录接口\", \"集成了OAuth2.0支持\"],\n    \"body_en\": [\"Implement JWT token validation\", \"Add user login endpoint\", \"Integrate OAuth2.0 support\"],\n    \"breaking_change\": null\n}\n";

pub const CHANGELOG_PROMPT_INTRO: &'static str = "You are a changelog summarizer. Based on the following git commits, generate a bilingual (Chinese and English) changelog summary.\n\nContext:\n- Total commits: ";

pub const CHANGELOG_PROMPT_RANGE: &'static str = "\n- Date range: ";

pub const CHANGELOG_PROMPT_COMMITS: &'static str = "\n\nGit Commits:\n```\n";

pub const CHANGELOG_PROMPT_TAIL: &'static str = "\n```\n\nGenerate a changelog summary with the following structure:\n- title: 中文标题，简要概括这些提交的主题\n- title_en: English title summarizing the theme\n- highlights: 中文亮点列表，最重要的2-3个变更\n- highlights_en: English highlights corresponding to Chinese\n- categories: 按类型分类的变更列表（双语混合格式）\n  - features: 新功能列表\n  - fixes: 修复列表\n  - improvements: 改进列表\n  - others: 其他变更\n\nImportant:\n1. Analyze commit messages to understand the changes\n2. Group similar changes together\n3. Use clear, concise language\n4. Each item in categories should be bilingual format: \"中文描述 / English description\"\n\nRespond with a JSON object. Example:\n{\n    \"title\": \"用户认证与性能优化\",\n    \"title_en\": \"User Authentication and Performance Optimization\",\n    \"highlights\": [\"添加了完整的用户认证系统\", \"优化了数据库查询性能\"],\n    \"highlights_en\": [\"Added complete user authentication system\", \"Optimized database query performance\"],\n    \"categories\": {\n        \"features\": [\"用户登录功能 / User login feature\", \"OAuth2.0 支持 / OAuth2.0 support\"],\n        \"fixes\": [\"修复登录超时问题 / Fix login timeout issue\"],\n        \"improvements\": [\"优化API响应速度 / Optimize API response speed\"],\n        \"others\": [\"更新依赖版本 / Update dependencies\"]\n    }\n}\n";

/// What the prompt says about the change besides the diff.
#[derive(Debug, Clone, PartialEq)]
pub struct CommitContext {
    pub branch_name: Option<String>,
    pub file_count: usize,
    pub added_lines: usize,
    pub removed_lines: usize,
}

/// What the changelog prompt says besides the commits.
#[derive(Debug, Clone, PartialEq)]
pub struct ChangelogContext {
    pub total_commits: usize,
    pub date_range: Option<String>,
}

/// `b` is the last character boundary of `bytes` at or before `max`.
pub open spec fn last_boundary(bytes: Seq<u8>, max: int, b: int) -> bool {
    0 <= b <= max && is_char_boundary(bytes, b) && forall|c: int|
        b < c <= max ==> !is_char_boundary(bytes, c)
}

/// The bytes of a text cut to at most `max` bytes, at a character boundary.
pub open spec fn truncated_bytes(bytes: Seq<u8>, max: int) -> Seq<u8> {
    if bytes.len() <= max {
        bytes
    } else {
        bytes.take(choose|b: int| last_boundary(bytes, max, b))
    }
}

/// A text cut to at most `max` bytes of UTF-8, at a character boundary.
pub open spec fn truncated_text(s: Seq<char>, max: int) -> Seq<char> {
    decode_utf8(truncated_bytes(encode_utf8(s), max))
}

proof fn lemma_last_boundary_unique(bytes: Seq<u8>, max: int, b: int, c: int)
    requires
        last_boundary(bytes, max, b),
        last_boundary(bytes, max, c),
    ensures
        b == c,
{
}

/// `diff` cut to at most `max_chars` bytes, never inside a character.
pub fn truncate_diff(diff: &str, max_chars: usize) -> (r: &str)
    ensures
        r.spec_bytes() == truncated_bytes(diff.spec_bytes(), max_chars as int),
        r@ == truncated_text(diff@, max_chars as int),
{
    if diff.as_bytes().len() <= max_chars {
        proof {
            encode_utf8_decode_utf8(diff@);
        }
        diff
    } else {
        let mut boundary = max_chars;
        proof {
            encode_utf8_valid_utf8(diff@);
        }
        while !diff.is_char_boundary(boundary) && boundary > 0
            invariant
                boundary <= max_chars,
                valid_utf8(diff.spec_bytes()),
                forall|c: int|
                    boundary < c <= max_chars ==> !is_char_boundary(diff.spec_bytes(), c),
            decreases boundary,
        {
            boundary = boundary - 1;
        }
        assert(is_char_boundary(diff.spec_bytes(), boundary as int));
        let (head, _) = diff.split_at(boundary);
        proof {
            let bytes = diff.spec_bytes();
            assert(last_boundary(bytes, max_chars as int, boundary as int));
            let b = choose|b: int| last_boundary(bytes, max_chars as int, b);
            lemma_last_boundary_unique(bytes, max_chars as int, b, boundary as int);
            assert(head.spec_bytes() =~= truncated_bytes(bytes, max_chars as int));
            encode_utf8_decode_utf8(head@);
        }
        head
    }
}

/// The branch name a commit prompt shows.
pub open spec fn branch_text(b: Option<String>) -> Seq<char> {
    match b {
        Some(n) => n@,
        None => "unknown"@,
    }
}

/// The commit-message prompt for a diff and its context.
pub open spec fn commit_prompt(diff: Seq<char>, c: CommitContext) -> Seq<char> {
    COMMIT_PROMPT_INTRO@ + branch_text(c.branch_name) + COMMIT_PROMPT_FILES@ + decimal(
        c.file_count as nat,
    ) + COMMIT_PROMPT_ADDED@ + decimal(c.added_lines as nat) + COMMIT_PROMPT_REMOVED@ + decimal(
        c.removed_lines as nat,
    ) + COMMIT_PROMPT_DIFF@ + truncated_text(diff, DIFF_BUDGET as int) + COMMIT_PROMPT_TAIL@
}

/// Builds the commit-message prompt: the context, then the diff cut to
/// `DIFF_BUDGET` bytes, then the instructions and the example.
pub fn build_prompt(diff: &str, context: &CommitContext) -> (r: String)
    ensures
        r@ == commit_prompt(diff@, *context),
{
    let mut s = String::new();
    push_all(&mut s, COMMIT_PROMPT_INTRO);
    match &context.branch_name {
        Some(b) => push_all(&mut s, b.as_str()),
        None => push_all(&mut s, "unknown"),
    }
    push_all(&mut s, COMMIT_PROMPT_FILES);
    push_decimal(&mut s, context.file_count as u64);
    push_all(&mut s, COMMIT_PROMPT_ADDED);
    push_decimal(&mut s, context.added_lines as u64);
    push_all(&mut s, COMMIT_PROMPT_REMOVED);
    push_decimal(&mut s, context.removed_lines as u64);
    push_all(&mut s, COMMIT_PROMPT_DIFF);
    push_all(&mut s, truncate_diff(diff, DIFF_BUDGET));
    push_all(&mut s, COMMIT_PROMPT_TAIL);
    assert(s@ =~= commit_prompt(diff@, *context));
    s
}

/// One commit as the changelog prompt lists it.
pub open spec fn commit_line(c: CommitInfo) -> Seq<char> {
    "- ["@ + c.short_id@ + "] "@ + date_text(c.time) + " - "@ + c.summary@ + " ("@ + c.author@
        + ")"@
}

/// The commits as the changelog prompt lists them, one per line.
pub open spec fn commit_lines(cs: Seq<CommitInfo>) -> Seq<char>
    decreases cs.len(),
{
    if cs.len() == 0 {
        Seq::empty()
    } else if cs.len() == 1 {
        commit_line(cs[0])
    } else {
        commit_lines(cs.drop_last()) + seq!['\n'] + commit_line(cs.last())
    }
}

/// The date range a changelog prompt shows.
pub open spec fn range_text(r: Option<String>) -> Seq<char> {
    match r {
        Some(s) => s@,
        None => "N/A"@,
    }
}

/// The changelog prompt for a list of commits and its context.
pub open spec fn changelog_prompt(cs: Seq<CommitInfo>, c: ChangelogContext) -> Seq<char> {
    CHANGELOG_PROMPT_INTRO@ + decimal(c.total_commits as nat) + CHANGELOG_PROMPT_RANGE@
        + range_text(c.date_range) + CHANGELOG_PROMPT_COMMITS@ + commit_lines(cs)
        + CHANGELOG_PROMPT_TAIL@
}

/// Builds the changelog prompt: the context, the commits one per line, then
/// the instructions and the example.
pub fn build_changelog_prompt(commits: &[CommitInfo], context: &ChangelogContext) -> (r: String)
    ensures
        r@ == changelog_prompt(commits@, *context),
{
    let mut s = String::new();
    push_all(&mut s, CHANGELOG_PROMPT_INTRO);
    push_decimal(&mut s, context.total_commits as u64);
    push_all(&mut s, CHANGELOG_PROMPT_RANGE);
    match &context.date_range {
        Some(d) => push_all(&mut s, d.as_str()),
        None => push_all(&mut s, "N/A"),
    }
    push_all(&mut s, CHANGELOG_PROMPT_COMMITS);
    let ghost head = s@;
    let mut i: usize = 0;
    while i < commits.len()
        invariant
            i <= commits@.len(),
            s@ == head + commit_lines(commits@.take(i as int)),
        decreases commits@.len() - i,
    {
        let c = &commits[i];
        if i > 0 {
            s.push('\n');
        }
        push_all(&mut s, "- [");
        push_all(&mut s, c.short_id.as_str());
        push_all(&mut s, "] ");
        c.time.push_date(&mut s);
        push_all(&mut s, " - ");
        push_all(&mut s, c.summary.as_str());
        push_all(&mut s, " (");
        push_all(&mut s, c.author.as_str());
        push_all(&mut s, ")");
        proof {
            let t = commits@.take(i + 1);
            assert(t.drop_last() =~= commits@.take(i as int));
            assert(t.last() == *c);
            if i == 0 {
                assert(commit_lines(commits@.take(0)) =~= Seq::empty());
                assert(s@ =~= head + commit_lines(t));
            } else {
                assert(s@ =~= head + commit_lines(t));
            }
        }
        i = i + 1;
    }
    assert(commits@.take(commits@.len() as int) =~= commits@);
    push_all(&mut s, CHANGELOG_PROMPT_TAIL);
    assert(s@ =~= changelog_prompt(commits@, *context));
    s
}

} // verus!
