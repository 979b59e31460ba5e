//! The collection store: the pure core of each CRUD operation. The caller
//! performs the reads and writes of the underlying files and hands the raw
//! text in; every decision and every byte written is computed and specified
//! here.
use vstd::prelude::*;
use crate::document::{
    spec_parse_doc, spec_serialize_doc, front_of_prompt, parse_markdown_prompt_at,
    serialize_markdown_prompt, clone_tags, spec_base_name, spec_rfind_char,
};
use crate::error::AppError;
use crate::ident::{sanitize_filename, spec_sanitize};
use crate::model::{CreatePromptInput, PromptItem, PromptSpec, UpdatePromptInput, UpdateSpec};
use crate::paths::{spec_prompt_file_path, prompt_file_path, spec_file_in_dir, file_in_dir};
use crate::text::{str_eq, chars_of, subvec, vec_eq, extend_str, string_of};

verus! {

/// The collection a create lands in: `templates` when asked for, else
/// `favorites`.
pub open spec fn spec_create_folder(folder: Seq<char>) -> Seq<char> {
    if folder == "templates"@ {
        "templates"@
    } else {
        "favorites"@
    }
}

/// The document a create call stores, and the raw file written for it. The
/// id is derived from the title; a second create whose title collapses to the
/// same id lands on the same file and overwrites it.
pub fn create_prompt(input: CreatePromptInput, data_dir: &str, now: &str) -> (r: (
    PromptItem,
    String,
))
    ensures
        ({
            let folder = spec_create_folder(input.folder@);
            let id = spec_sanitize(input.title@);
            &&& r.0@ == (PromptSpec {
                id: id,
                title: input.title@,
                content: input.content@,
                tags: input.tags.deep_view(),
                description: crate::model::view_opt_string(input.description),
                use_count: 0,
                last_used: None,
                created_at: now@,
                updated_at: now@,
                file_path: spec_prompt_file_path(data_dir@, folder, id),
                folder: folder,
            })
            &&& r.1@ == spec_serialize_doc(front_of_prompt(r.0@), input.content@)
        }),
{
    let folder: &str = if str_eq(input.folder.as_str(), "templates") {
        "templates"
    } else {
        "favorites"
    };
    let id = sanitize_filename(input.title.as_str());
    let file_path = prompt_file_path(data_dir, folder, id.as_str());
    let item = PromptItem {
        id: id,
        title: input.title,
        content: input.content,
        tags: input.tags,
        description: input.description,
        use_count: 0,
        last_used: None,
        created_at: String::from_str(now),
        updated_at: String::from_str(now),
        file_path: file_path,
        folder: String::from_str(folder),
    };
    let raw = serialize_markdown_prompt(&item);
    (item, raw)
}

/// A partial update applied to a decoded document: present fields replace,
/// absent fields preserve, and `updated_at` is stamped with the update time.
pub open spec fn spec_apply_update(p: PromptSpec, u: UpdateSpec, now: Seq<char>) -> PromptSpec {
    PromptSpec {
        title: match u.title {
            Some(t) => t,
            None => p.title,
        },
        content: match u.content {
            Some(c) => c,
            None => p.content,
        },
        tags: match u.tags {
            Some(t) => t,
            None => p.tags,
        },
        description: match u.description {
            Some(d) => Some(d),
            None => p.description,
        },
        updated_at: now,
        ..p
    }
}

/// An update never changes a field omitted from the partial input: identity,
/// counters and timestamps other than `updated_at` are preserved exactly.
pub proof fn lemma_update_preserves_omitted(p: PromptSpec, u: UpdateSpec, now: Seq<char>)
    ensures
        u.title is None ==> spec_apply_update(p, u, now).title == p.title,
        u.content is None ==> spec_apply_update(p, u, now).content == p.content,
        u.tags is None ==> spec_apply_update(p, u, now).tags == p.tags,
        u.description is None ==> spec_apply_update(p, u, now).description == p.description,
        spec_apply_update(p, u, now).id == p.id,
        spec_apply_update(p, u, now).use_count == p.use_count,
        spec_apply_update(p, u, now).last_used == p.last_used,
        spec_apply_update(p, u, now).created_at == p.created_at,
        spec_apply_update(p, u, now).file_path == p.file_path,
        spec_apply_update(p, u, now).folder == p.folder,
        spec_apply_update(p, u, now).updated_at == now,
{
}

/// The existence test that precedes an update or a recorded use: the
/// operation proceeds only when the document's file exists, and a missing
/// document is exactly the `NOT_FOUND` error naming it. The caller reports
/// what the file system says of the path.
pub fn check_prompt_exists(id: &str, file_exists: bool) -> (r: Result<(), AppError>)
    ensures
        r is Ok <==> file_exists,
        r matches Err(e) ==> e.code@ == "NOT_FOUND"@ && e.message@ == "Prompt not found: "@ + id@,
{
    if file_exists {
        Ok(())
    } else {
        let mut msg: Vec<char> = Vec::new();
        extend_str(&mut msg, "Prompt not found: ");
        extend_str(&mut msg, id);
        proof {
            assert(msg@ =~= "Prompt not found: "@ + id@);
        }
        let text = string_of(&msg);
        Err(AppError::new(text.as_str(), "NOT_FOUND"))
    }
}

/// The document after a partial update of the given raw file, and the raw
/// file written back. The caller reports the file's current text; a missing
/// file is its `NOT_FOUND` error, decided by `check_prompt_exists` before
/// this call.
pub fn update_prompt(
    content: &str,
    file_path: &str,
    folder: &str,
    updates: &UpdatePromptInput,
    now: &str,
) -> (r: (PromptItem, String))
    ensures
        r.0@ == spec_apply_update(
            spec_parse_doc(content@, file_path@, folder@, now@),
            updates@,
            now@,
        ),
        r.1@ == spec_serialize_doc(front_of_prompt(r.0@), r.0@.content),
{
    let mut prompt = parse_markdown_prompt_at(content, file_path, folder, now);
    match &updates.title {
        Some(t) => {
            prompt.title = t.clone();
        },
        None => {},
    }
    match &updates.content {
        Some(c) => {
            prompt.content = c.clone();
        },
        None => {},
    }
    match &updates.tags {
        Some(ts) => {
            prompt.tags = clone_tags(ts);
        },
        None => {},
    }
    match &updates.description {
        Some(d) => {
            prompt.description = Some(d.clone());
        },
        None => {},
    }
    prompt.updated_at = String::from_str(now);
    proof {
        assert(prompt@ =~~= spec_apply_update(
            spec_parse_doc(content@, file_path@, folder@, now@),
            updates@,
            now@,
        ));
    }
    let raw = serialize_markdown_prompt(&prompt);
    (prompt, raw)
}

/// The document after one recorded use: the use count grows by exactly one,
/// and both `last_used` and `updated_at` are stamped with the use time;
/// every other field is preserved. The second part is the raw file written
/// back.
pub fn increment_use_count(content: &str, file_path: &str, folder: &str, now: &str) -> (r: (
    PromptItem,
    String,
))
    requires
        spec_parse_doc(content@, file_path@, folder@, now@).use_count < u32::MAX,
    ensures
        ({
            let p = spec_parse_doc(content@, file_path@, folder@, now@);
            &&& r.0@.use_count == p.use_count + 1
            &&& r.0@.last_used == Some(now@)
            &&& r.0@.updated_at == now@
            &&& r.0@.id == p.id
            &&& r.0@.title == p.title
            &&& r.0@.content == p.content
            &&& r.0@.tags == p.tags
            &&& r.0@.description == p.description
            &&& r.0@.created_at == p.created_at
            &&& r.0@.file_path == p.file_path
            &&& r.0@.folder == p.folder
            &&& r.1@ == spec_serialize_doc(front_of_prompt(r.0@), r.0@.content)
        }),
{
    let mut prompt = parse_markdown_prompt_at(content, file_path, folder, now);
    prompt.use_count = prompt.use_count + 1;
    prompt.last_used = Some(String::from_str(now));
    prompt.updated_at = String::from_str(now);
    let raw = serialize_markdown_prompt(&prompt);
    (prompt, raw)
}

/// The file to remove for a delete, if any. Deleting is idempotent: the call
/// succeeds whether or not the document exists, and only an existing file is
/// removed.
pub fn delete_prompt(data_dir: &str, id: &str, folder: &str, file_exists: bool) -> (r: Result<
    Option<String>,
    AppError,
>)
    ensures
        r is Ok,
        r matches Ok(op) ==> (op is Some <==> file_exists),
        r matches Ok(op) ==> (op matches Some(p) ==> p@ == spec_prompt_file_path(
            data_dir@,
            folder@,
            id@,
        )),
{
    if file_exists {
        Ok(Some(prompt_file_path(data_dir, folder, id)))
    } else {
        Ok(None)
    }
}

/// True when the path names a file of the stored-document kind: its base
/// name has the `md` extension.
pub open spec fn is_md_path(p: Seq<char>) -> bool {
    let name = spec_base_name(p);
    match spec_rfind_char(name, '.') {
        Some(k) => k > 0 && name.skip(k + 1) == seq!['m', 'd'],
        None => false,
    }
}

/// The documents decoded from the listed files, in their listed order:
/// every `.md` file is decoded (decoding never fails), everything else is
/// skipped.
pub open spec fn spec_decode_collection(
    files: Seq<(String, String)>,
    folder: Seq<char>,
    now: Seq<char>,
) -> Seq<PromptSpec>
    decreases files.len(),
{
    if files.len() == 0 {
        Seq::empty()
    } else {
        let rest = spec_decode_collection(files.skip(1), folder, now);
        if is_md_path(files[0].0@) {
            seq![spec_parse_doc(files[0].1@, files[0].0@, folder, now)] + rest
        } else {
            rest
        }
    }
}

proof fn lemma_decode_collection_push(
    files: Seq<(String, String)>,
    x: (String, String),
    folder: Seq<char>,
    now: Seq<char>,
)
    ensures
        spec_decode_collection(files.push(x), folder, now) == if is_md_path(x.0@) {
            spec_decode_collection(files, folder, now).push(spec_parse_doc(x.1@, x.0@, folder, now))
        } else {
            spec_decode_collection(files, folder, now)
        },
    decreases files.len(),
{
    if files.len() == 0 {
        assert(files.push(x)[0] == x);
        assert(files.push(x).skip(1) =~= Seq::<(String, String)>::empty());
        assert(spec_decode_collection(Seq::<(String, String)>::empty(), folder, now)
            == Seq::<PromptSpec>::empty());
        assert(files =~= Seq::<(String, String)>::empty());
        if is_md_path(x.0@) {
            assert(spec_decode_collection(files.push(x), folder, now) =~= spec_decode_collection(
                files,
                folder,
                now,
            ).push(spec_parse_doc(x.1@, x.0@, folder, now)));
        }
    } else {
        assert(files.push(x)[0] == files[0]);
        assert(files.push(x).skip(1) =~= files.skip(1).push(x));
        lemma_decode_collection_push(files.skip(1), x, folder, now);
        if is_md_path(x.0@) {
            assert(spec_decode_collection(files.push(x), folder, now) =~= spec_decode_collection(
                files,
                folder,
                now,
            ).push(spec_parse_doc(x.1@, x.0@, folder, now)));
        }
    }
}

/// True when the path's base name carries the `md` extension.
fn is_md_file(path: &str) -> (r: bool)
    ensures
        r == is_md_path(path@),
{
    let pv = chars_of(path);
    let n = pv.len();
    let name = match crate::document::rfind_char(&pv, '/') {
        Some(i) => subvec(&pv, i + 1, n),
        None => subvec(&pv, 0, n),
    };
    proof {
        assert(pv@.subrange(0, pv@.len() as int) =~= pv@);
        assert(name@ == spec_base_name(path@));
    }
    let m = name.len();
    match crate::document::rfind_char(&name, '.') {
        Some(k) => {
            if k == 0 {
                return false;
            }
            let ext = subvec(&name, k + 1, m);
            proof {
                assert(ext@ =~= name@.skip(k as int + 1));
            }
            let mut md: Vec<char> = Vec::new();
            md.push('m');
            md.push('d');
            proof {
                assert(md@ =~= seq!['m', 'd']);
            }
            vec_eq(&ext, &md)
        },
        None => false,
    }
}

/// The documents decoded from a collection directory's files, handed in as
/// `(path, raw text)` pairs in directory order. Files that could not be read
/// are simply not handed in: one unreadable or malformed file never blocks
/// the rest.
pub fn decode_collection(files: &Vec<(String, String)>, folder: &str, now: &str) -> (r: Vec<
    PromptItem,
>)
    ensures
        r@.map_values(|p: PromptItem| p@) == spec_decode_collection(files@, folder@, now@),
{
    let mut r: Vec<PromptItem> = Vec::new();
    let mut i: usize = 0;
    proof {
        assert(r@.map_values(|p: PromptItem| p@) =~= spec_decode_collection(
            files@.take(0),
            folder@,
            now@,
        ));
    }
    while i < files.len()
        invariant
            i <= files@.len(),
            r@.map_values(|p: PromptItem| p@) == spec_decode_collection(
                files@.take(i as int),
                folder@,
                now@,
            ),
        decreases files@.len() - i,
    {
        let (path, raw) = &files[i];
        if is_md_file(path.as_str()) {
            let item = parse_markdown_prompt_at(raw.as_str(), path.as_str(), folder, now);
            r.push(item);
        }
        proof {
            lemma_decode_collection_push(files@.take(i as int), files@[i as int], folder@, now@);
            assert(files@.take(i as int).push(files@[i as int]) =~= files@.take(i as int + 1));
            assert(r@.map_values(|p: PromptItem| p@) =~= spec_decode_collection(
                files@.take(i as int + 1),
                folder@,
                now@,
            ));
        }
        i = i + 1;
    }
    proof {
        assert(files@.take(files@.len() as int) =~= files@);
    }
    r
}


/// The ids of the built-in starter documents.
pub open spec fn starter_ids() -> Seq<Seq<char>> {
    seq![
        "starter-engineering-workflow"@,
        "starter-bug-debugging"@,
        "starter-prd-breakdown"@,
        "starter-gemini-official-template"@,
        "starter-agent-coding-workflow"@,
        "starter-openai-gpt52-official-template"@,
    ]
}

/// The fixed built-in set of starter documents, as stored under the
/// templates directory with the given seeding time. The set deliberately
/// names no particular assistant product in its ids: the coding-agent
/// workflow starter ships under a vendor-neutral id, title and tag set.
pub open spec fn starter_list(dir: Seq<char>, now: Seq<char>) -> Seq<PromptSpec> {
    seq![
        PromptSpec {
            id: "starter-engineering-workflow"@,
            title: "Starter - 工程任务（Explore→Plan→Implement→Verify）"@,
            content: "你是我的高级软件工程师与结对编程伙伴。\n\n# 目标\n完成我描述的工程任务，并确保可运行、可验证。\n\n# 输入上下文（请先读取/确认）\n- 仓库/项目：[[项目类型/语言/框架]]\n- 相关文件/目录：[[文件路径列表]]（如果我没给，你先问我或让我提供）\n- 约束：[[不能改动的部分/兼容性/截止时间/风格要求]]\n\n# 工作流程（必须按顺序）\n1) Explore：先复述你理解的目标，并列出你需要确认的 3-8 个关键问题（如缺省就提问）。\n2) Plan：给出一个简短计划（3-6 步），并明确风险点与验证方式。\n3) Implement：按计划实现（分步骤说明你改了什么）。\n4) Verify：给出自检清单（编译/测试/边界情况），并逐项说明你如何验证。\n\n# 输出格式（必须严格遵守）\n- **理解**：...\n- **计划**：...\n- **实现**：...\n- **验证**：...\n- **后续建议**：...\n"@,
            tags: seq!["starter"@, "engineering"@, "workflow"@],
            description: Some("按工程化流程推进编码任务：先探索与计划，再实现与验证。"@),
            use_count: 0,
            last_used: None,
            created_at: now,
            updated_at: now,
            file_path: spec_file_in_dir(dir, "starter-engineering-workflow"@),
            folder: "templates"@,
        },
        PromptSpec {
            id: "starter-bug-debugging"@,
            title: "Starter - Bug 定位与修复（复现→假设→验证→修复）"@,
            content: "你是资深 Debug 工程师。你的目标是用最少的假设，快速定位根因并给出可验证修复方案。\n\n# Bug 描述\n[[现象/报错/截图文字]]\n\n# 环境信息\n- OS/浏览器/版本：[[...]]\n- 相关依赖版本：[[...]]\n- 日志/堆栈：[[粘贴日志；没有就说\"暂无\"；也可以提出需要哪些日志]]\n\n# 你必须产出\n1) 复现路径（最小复现步骤，按 1/2/3...）\n2) 根因假设列表（按概率排序，每条都给\"证据/线索/需要验证什么\"）\n3) 最优先的验证手段（我该先看哪些文件/加哪些日志/跑哪些命令）\n4) 修复方案（最小改动优先），并说明为什么能解决\n5) 回归测试清单（确保不引入新问题）\n\n# 输出格式（严格）\n- **复现步骤**：\n- **根因假设（按概率排序）**：\n- **验证计划**：\n- **修复方案**：\n- **回归测试**：\n"@,
            tags: seq!["starter"@, "debugging"@, "bugfix"@],
            description: Some("把模糊 bug 变成可复现、可验证的修复方案与回归清单。"@),
            use_count: 0,
            last_used: None,
            created_at: now,
            updated_at: now,
            file_path: spec_file_in_dir(dir, "starter-bug-debugging"@),
            folder: "templates"@,
        },
        PromptSpec {
            id: "starter-prd-breakdown"@,
            title: "Starter - PRD 拆解（用户故事→任务→验收标准）"@,
            content: "你是产品 + 技术负责人，擅长把模糊需求变成可执行的开发计划。\n\n# 需求描述（原始）\n[[把你想到的需求直接粘贴，越口语越可以]]\n\n# 约束\n- 目标用户：[[...]]\n- 不做什么（Out of scope）：[[...]]\n- 时间/资源：[[...]]\n- 依赖系统：[[...]]\n\n# 你需要输出\n1) 需求澄清问题（最多 6 个，优先问\"影响方案选择\"的）\n2) 核心用户故事（1-3 条）\n3) 功能拆解（Epic → Stories → Tasks）\n4) 每个 Story 的验收标准（可测试、可判定，避免\"更好/更快\"）\n5) 风险与备选方案（技术/产品/数据）\n\n# 输出格式\n- **澄清问题**：\n- **用户故事**：\n- **拆解（Epic/Story/Task）**：\n- **验收标准**：\n- **风险与备选**：\n"@,
            tags: seq!["starter"@, "product"@, "planning"@],
            description: Some("把需求转成工程可执行的 Epic/Story/Task 与可测试验收标准。"@),
            use_count: 0,
            last_used: None,
            created_at: now,
            updated_at: now,
            file_path: spec_file_in_dir(dir, "starter-prd-breakdown"@),
            folder: "templates"@,
        },
        PromptSpec {
            id: "starter-gemini-official-template"@,
            title: "Starter - Gemini 官方 Prompt 模板（Identity/Constraints/Format）"@,
            content: "System Instruction:\n\n<role>\nYou are a specialized assistant for [[Domain/Role, e.g., Data Science / Senior Software Engineer]].\nYou are precise, analytical, and persistent.\n</role>\n\n<instructions>\n1. Plan: Analyze the task and create a step-by-step plan.\n2. Execute: Carry out the plan.\n3. Validate: Review your output against the user's task.\n4. Format: Present the final answer in the requested structure.\n</instructions>\n\n<constraints>\n- Verbosity: [[Low/Medium/High]]\n- Tone: [[Formal/Casual/Technical]]\n- Language: [[Chinese/English]]\n</constraints>\n\n<output_format>\nStructure your response as follows:\n1) Executive Summary: [[short overview]]\n2) Detailed Response: [[main content]]\n3) Validation Checklist: [[bullet checklist]]\n</output_format>\n\n\nUser Prompt:\n\n<context>\n[[Paste relevant docs / code snippets / background info here]]\n</context>\n\n<task>\n[[Insert specific request here]]\n</task>\n\n<final_instruction>\nThink step-by-step before answering, then provide the final response in the output_format.\n</final_instruction>\n"@,
            tags: seq!["starter"@, "official"@, "gemini"@, "structure"@],
            description: Some("Google Gemini 官方推荐的结构化提示词模板骨架。"@),
            use_count: 0,
            last_used: None,
            created_at: now,
            updated_at: now,
            file_path: spec_file_in_dir(dir, "starter-gemini-official-template"@),
            folder: "templates"@,
        },
        PromptSpec {
            id: "starter-agent-coding-workflow"@,
            title: "Starter - 编码代理工作流（Explore→Plan→Implement→Verify）"@,
            content: "You are an expert engineer working in my codebase.\n\n## Workflow (follow in order)\n1) Explore:\n   - Identify the relevant files/modules.\n   - If you are unsure, ask me for the missing context or request specific files.\n   - Do NOT write code yet.\n\n2) Plan:\n   - Propose a short plan (3-6 steps).\n   - List risks / edge cases.\n   - Wait for my confirmation before coding.\n\n3) Implement:\n   - Make the minimal correct changes.\n   - Explain what changed at a high level.\n\n4) Verify:\n   - Provide a verification checklist (tests to run, cases to check).\n   - If you cannot run tests, explain what I should run and what success looks like.\n\n## Checklist / Scratchpad (for complex tasks)\nCreate a checklist of sub-tasks and tick them off one by one.\n\n## Output rules\n- Be specific and concrete.\n- Prefer bullet points and clear sections.\n"@,
            tags: seq!["starter"@, "official"@, "coding-workflow"@],
            description: Some("编码代理工作流：先探索与计划，复杂任务用 checklist 推进。"@),
            use_count: 0,
            last_used: None,
            created_at: now,
            updated_at: now,
            file_path: spec_file_in_dir(dir, "starter-agent-coding-workflow"@),
            folder: "templates"@,
        },
        PromptSpec {
            id: "starter-openai-gpt52-official-template"@,
            title: "Starter - OpenAI GPT-5.2 官方模板（输出形状/范围/歧义/工具/结构化）"@,
            content: "# Role & Objective\nYou are [[role]]. Your objective is [[objective]].\n\n<output_verbosity_spec>\n- Default: 3–6 sentences or ≤5 bullets for typical answers.\n- For simple yes/no + short explanation questions: ≤2 sentences.\n- For complex multi-step or multi-file tasks:\n  - 1 short overview paragraph\n  - then ≤5 bullets tagged: What changed, Where, Risks, Next steps, Open questions.\n- Avoid long narrative paragraphs; prefer compact bullets and short sections.\n- Do not rephrase the user’s request unless it changes semantics.\n</output_verbosity_spec>\n\n<design_and_scope_constraints>\n- Implement EXACTLY and ONLY what the user requests.\n- No extra features, no added components, no UX embellishments.\n- Do NOT invent colors, shadows, tokens, animations, or new UI elements, unless requested or necessary.\n- If any instruction is ambiguous, choose the simplest valid interpretation.\n</design_and_scope_constraints>\n\n<long_context_handling>\n- For inputs longer than ~10k tokens:\n  - First, produce a short outline of key sections relevant to the request.\n  - Re-state constraints explicitly before answering.\n  - Anchor claims to sections; quote/paraphrase fine details (dates/thresholds/clauses).\n</long_context_handling>\n\n<uncertainty_and_ambiguity>\n- If ambiguous or underspecified:\n  - Ask up to 1–3 precise clarifying questions, OR\n  - Present 2–3 plausible interpretations with clearly labeled assumptions.\n- Never fabricate exact figures or references when uncertain.\n</uncertainty_and_ambiguity>\n\n<tool_usage_rules>\n- Prefer tools whenever you need fresh or user-specific data.\n- After any write/update tool call, restate: What changed, Where, Validation performed.\n</tool_usage_rules>\n\n<extraction_spec>\nUse this only when extracting structured data into JSON.\n- Follow the schema exactly (no extra fields): [[PASTE_JSON_SCHEMA]]\n- If a field is not present, set it to null rather than guessing.\n- Before returning, re-scan the source for missed fields.\n</extraction_spec>\n\n# User Task\n[[paste the task + context here]]\n"@,
            tags: seq!["starter"@, "official"@, "openai"@, "gpt-5.2"@, "structure"@],
            description: Some("OpenAI Cookbook（GPT-5.2 Prompting Guide）提炼的官方提示词块，用于提升可靠性与可评估性。"@),
            use_count: 0,
            last_used: None,
            created_at: now,
            updated_at: now,
            file_path: spec_file_in_dir(dir, "starter-openai-gpt52-official-template"@),
            folder: "templates"@,
        },
    ]
}

fn starter_0(dir: &str, now: &str) -> (r: PromptItem)
    ensures
        r@ == starter_list(dir@, now@)[0],
{
    let mut tags: Vec<String> = Vec::new();
    tags.push(String::from_str("starter"));
    tags.push(String::from_str("engineering"));
    tags.push(String::from_str("workflow"));
    let r = PromptItem {
        id: String::from_str("starter-engineering-workflow"),
        title: String::from_str("Starter - 工程任务（Explore→Plan→Implement→Verify）"),
        content: String::from_str("你是我的高级软件工程师与结对编程伙伴。\n\n# 目标\n完成我描述的工程任务，并确保可运行、可验证。\n\n# 输入上下文（请先读取/确认）\n- 仓库/项目：[[项目类型/语言/框架]]\n- 相关文件/目录：[[文件路径列表]]（如果我没给，你先问我或让我提供）\n- 约束：[[不能改动的部分/兼容性/截止时间/风格要求]]\n\n# 工作流程（必须按顺序）\n1) Explore：先复述你理解的目标，并列出你需要确认的 3-8 个关键问题（如缺省就提问）。\n2) Plan：给出一个简短计划（3-6 步），并明确风险点与验证方式。\n3) Implement：按计划实现（分步骤说明你改了什么）。\n4) Verify：给出自检清单（编译/测试/边界情况），并逐项说明你如何验证。\n\n# 输出格式（必须严格遵守）\n- **理解**：...\n- **计划**：...\n- **实现**：...\n- **验证**：...\n- **后续建议**：...\n"),
        tags: tags,
        description: Some(String::from_str("按工程化流程推进编码任务：先探索与计划，再实现与验证。")),
        use_count: 0,
        last_used: None,
        created_at: String::from_str(now),
        updated_at: String::from_str(now),
        file_path: file_in_dir(dir, "starter-engineering-workflow"),
        folder: String::from_str("templates"),
    };
    proof {
        assert(tags.deep_view() =~= starter_list(dir@, now@)[0].tags);
        assert(r@ =~~= starter_list(dir@, now@)[0]);
    }
    r
}

fn starter_1(dir: &str, now: &str) -> (r: PromptItem)
    ensures
        r@ == starter_list(dir@, now@)[1],
{
    let mut tags: Vec<String> = Vec::new();
    tags.push(String::from_str("starter"));
    tags.push(String::from_str("debugging"));
    tags.push(String::from_str("bugfix"));
    let r = PromptItem {
        id: String::from_str("starter-bug-debugging"),
        title: String::from_str("Starter - Bug 定位与修复（复现→假设→验证→修复）"),
        content: String::from_str("你是资深 Debug 工程师。你的目标是用最少的假设，快速定位根因并给出可验证修复方案。\n\n# Bug 描述\n[[现象/报错/截图文字]]\n\n# 环境信息\n- OS/浏览器/版本：[[...]]\n- 相关依赖版本：[[...]]\n- 日志/堆栈：[[粘贴日志；没有就说\"暂无\"；也可以提出需要哪些日志]]\n\n# 你必须产出\n1) 复现路径（最小复现步骤，按 1/2/3...）\n2) 根因假设列表（按概率排序，每条都给\"证据/线索/需要验证什么\"）\n3) 最优先的验证手段（我该先看哪些文件/加哪些日志/跑哪些命令）\n4) 修复方案（最小改动优先），并说明为什么能解决\n5) 回归测试清单（确保不引入新问题）\n\n# 输出格式（严格）\n- **复现步骤**：\n- **根因假设（按概率排序）**：\n- **验证计划**：\n- **修复方案**：\n- **回归测试**：\n"),
        tags: tags,
        description: Some(String::from_str("把模糊 bug 变成可复现、可验证的修复方案与回归清单。")),
        use_count: 0,
        last_used: None,
        created_at: String::from_str(now),
        updated_at: String::from_str(now),
        file_path: file_in_dir(dir, "starter-bug-debugging"),
        folder: String::from_str("templates"),
    };
    proof {
        assert(tags.deep_view() =~= starter_list(dir@, now@)[1].tags);
        assert(r@ =~~= starter_list(dir@, now@)[1]);
    }
    r
}

fn starter_2(dir: &str, now: &str) -> (r: PromptItem)
    ensures
        r@ == starter_list(dir@, now@)[2],
{
    let mut tags: Vec<String> = Vec::new();
    tags.push(String::from_str("starter"));
    tags.push(String::from_str("product"));
    tags.push(String::from_str("planning"));
    let r = PromptItem {
        id: String::from_str("starter-prd-breakdown"),
        title: String::from_str("Starter - PRD 拆解（用户故事→任务→验收标准）"),
        content: String::from_str("你是产品 + 技术负责人，擅长把模糊需求变成可执行的开发计划。\n\n# 需求描述（原始）\n[[把你想到的需求直接粘贴，越口语越可以]]\n\n# 约束\n- 目标用户：[[...]]\n- 不做什么（Out of scope）：[[...]]\n- 时间/资源：[[...]]\n- 依赖系统：[[...]]\n\n# 你需要输出\n1) 需求澄清问题（最多 6 个，优先问\"影响方案选择\"的）\n2) 核心用户故事（1-3 条）\n3) 功能拆解（Epic → Stories → Tasks）\n4) 每个 Story 的验收标准（可测试、可判定，避免\"更好/更快\"）\n5) 风险与备选方案（技术/产品/数据）\n\n# 输出格式\n- **澄清问题**：\n- **用户故事**：\n- **拆解（Epic/Story/Task）**：\n- **验收标准**：\n- **风险与备选**：\n"),
        tags: tags,
        description: Some(String::from_str("把需求转成工程可执行的 Epic/Story/Task 与可测试验收标准。")),
        use_count: 0,
        last_used: None,
        created_at: String::from_str(now),
        updated_at: String::from_str(now),
        file_path: file_in_dir(dir, "starter-prd-breakdown"),
        folder: String::from_str("templates"),
    };
    proof {
        assert(tags.deep_view() =~= starter_list(dir@, now@)[2].tags);
        assert(r@ =~~= starter_list(dir@, now@)[2]);
    }
    r
}

fn starter_3(dir: &str, now: &str) -> (r: PromptItem)
    ensures
        r@ == starter_list(dir@, now@)[3],
{
    let mut tags: Vec<String> = Vec::new();
    tags.push(String::from_str("starter"));
    tags.push(String::from_str("official"));
    tags.push(String::from_str("gemini"));
    tags.push(String::from_str("structure"));
    let r = PromptItem {
        id: String::from_str("starter-gemini-official-template"),
        title: String::from_str("Starter - Gemini 官方 Prompt 模板（Identity/Constraints/Format）"),
        content: String::from_str("System Instruction:\n\n<role>\nYou are a specialized assistant for [[Domain/Role, e.g., Data Science / Senior Software Engineer]].\nYou are precise, analytical, and persistent.\n</role>\n\n<instructions>\n1. Plan: Analyze the task and create a step-by-step plan.\n2. Execute: Carry out the plan.\n3. Validate: Review your output against the user's task.\n4. Format: Present the final answer in the requested structure.\n</instructions>\n\n<constraints>\n- Verbosity: [[Low/Medium/High]]\n- Tone: [[Formal/Casual/Technical]]\n- Language: [[Chinese/English]]\n</constraints>\n\n<output_format>\nStructure your response as follows:\n1) Executive Summary: [[short overview]]\n2) Detailed Response: [[main content]]\n3) Validation Checklist: [[bullet checklist]]\n</output_format>\n\n\nUser Prompt:\n\n<context>\n[[Paste relevant docs / code snippets / background info here]]\n</context>\n\n<task>\n[[Insert specific request here]]\n</task>\n\n<final_instruction>\nThink step-by-step before answering, then provide the final response in the output_format.\n</final_instruction>\n"),
        tags: tags,
        description: Some(String::from_str("Google Gemini 官方推荐的结构化提示词模板骨架。")),
        use_count: 0,
        last_used: None,
        created_at: String::from_str(now),
        updated_at: String::from_str(now),
        file_path: file_in_dir(dir, "starter-gemini-official-template"),
        folder: String::from_str("templates"),
    };
    proof {
        assert(tags.deep_view() =~= starter_list(dir@, now@)[3].tags);
        assert(r@ =~~= starter_list(dir@, now@)[3]);
    }
    r
}

fn starter_4(dir: &str, now: &str) -> (r: PromptItem)
    ensures
        r@ == starter_list(dir@, now@)[4],
{
    let mut tags: Vec<String> = Vec::new();
    tags.push(String::from_str("starter"));
    tags.push(String::from_str("official"));
    tags.push(String::from_str("coding-workflow"));
    let r = PromptItem {
        id: String::from_str("starter-agent-coding-workflow"),
        title: String::from_str("Starter - 编码代理工作流（Explore→Plan→Implement→Verify）"),
        content: String::from_str("You are an expert engineer working in my codebase.\n\n## Workflow (follow in order)\n1) Explore:\n   - Identify the relevant files/modules.\n   - If you are unsure, ask me for the missing context or request specific files.\n   - Do NOT write code yet.\n\n2) Plan:\n   - Propose a short plan (3-6 steps).\n   - List risks / edge cases.\n   - Wait for my confirmation before coding.\n\n3) Implement:\n   - Make the minimal correct changes.\n   - Explain what changed at a high level.\n\n4) Verify:\n   - Provide a verification checklist (tests to run, cases to check).\n   - If you cannot run tests, explain what I should run and what success looks like.\n\n## Checklist / Scratchpad (for complex tasks)\nCreate a checklist of sub-tasks and tick them off one by one.\n\n## Output rules\n- Be specific and concrete.\n- Prefer bullet points and clear sections.\n"),
        tags: tags,
        description: Some(String::from_str("编码代理工作流：先探索与计划，复杂任务用 checklist 推进。")),
        use_count: 0,
        last_used: None,
        created_at: String::from_str(now),
        updated_at: String::from_str(now),
        file_path: file_in_dir(dir, "starter-agent-coding-workflow"),
        folder: String::from_str("templates"),
    };
    proof {
        assert(tags.deep_view() =~= starter_list(dir@, now@)[4].tags);
        assert(r@ =~~= starter_list(dir@, now@)[4]);
    }
    r
}

fn starter_5(dir: &str, now: &str) -> (r: PromptItem)
    ensures
        r@ == starter_list(dir@, now@)[5],
{
    let mut tags: Vec<String> = Vec::new();
    tags.push(String::from_str("starter"));
    tags.push(String::from_str("official"));
    tags.push(String::from_str("openai"));
    tags.push(String::from_str("gpt-5.2"));
    tags.push(String::from_str("structure"));
    let r = PromptItem {
        id: String::from_str("starter-openai-gpt52-official-template"),
        title: String::from_str("Starter - OpenAI GPT-5.2 官方模板（输出形状/范围/歧义/工具/结构化）"),
        content: String::from_str("# Role & Objective\nYou are [[role]]. Your objective is [[objective]].\n\n<output_verbosity_spec>\n- Default: 3–6 sentences or ≤5 bullets for typical answers.\n- For simple yes/no + short explanation questions: ≤2 sentences.\n- For complex multi-step or multi-file tasks:\n  - 1 short overview paragraph\n  - then ≤5 bullets tagged: What changed, Where, Risks, Next steps, Open questions.\n- Avoid long narrative paragraphs; prefer compact bullets and short sections.\n- Do not rephrase the user’s request unless it changes semantics.\n</output_verbosity_spec>\n\n<design_and_scope_constraints>\n- Implement EXACTLY and ONLY what the user requests.\n- No extra features, no added components, no UX embellishments.\n- Do NOT invent colors, shadows, tokens, animations, or new UI elements, unless requested or necessary.\n- If any instruction is ambiguous, choose the simplest valid interpretation.\n</design_and_scope_constraints>\n\n<long_context_handling>\n- For inputs longer than ~10k tokens:\n  - First, produce a short outline of key sections relevant to the request.\n  - Re-state constraints explicitly before answering.\n  - Anchor claims to sections; quote/paraphrase fine details (dates/thresholds/clauses).\n</long_context_handling>\n\n<uncertainty_and_ambiguity>\n- If ambiguous or underspecified:\n  - Ask up to 1–3 precise clarifying questions, OR\n  - Present 2–3 plausible interpretations with clearly labeled assumptions.\n- Never fabricate exact figures or references when uncertain.\n</uncertainty_and_ambiguity>\n\n<tool_usage_rules>\n- Prefer tools whenever you need fresh or user-specific data.\n- After any write/update tool call, restate: What changed, Where, Validation performed.\n</tool_usage_rules>\n\n<extraction_spec>\nUse this only when extracting structured data into JSON.\n- Follow the schema exactly (no extra fields): [[PASTE_JSON_SCHEMA]]\n- If a field is not present, set it to null rather than guessing.\n- Before returning, re-scan the source for missed fields.\n</extraction_spec>\n\n# User Task\n[[paste the task + context here]]\n"),
        tags: tags,
        description: Some(String::from_str("OpenAI Cookbook（GPT-5.2 Prompting Guide）提炼的官方提示词块，用于提升可靠性与可评估性。")),
        use_count: 0,
        last_used: None,
        created_at: String::from_str(now),
        updated_at: String::from_str(now),
        file_path: file_in_dir(dir, "starter-openai-gpt52-official-template"),
        folder: String::from_str("templates"),
    };
    proof {
        assert(tags.deep_view() =~= starter_list(dir@, now@)[5].tags);
        assert(r@ =~~= starter_list(dir@, now@)[5]);
    }
    r
}


/// The whole built-in starter set for a templates directory, in its fixed
/// order.
pub fn starter_prompts(templates_dir: &str, now: &str) -> (r: Vec<PromptItem>)
    ensures
        r@.map_values(|p: PromptItem| p@) == starter_list(templates_dir@, now@),
{
    let mut r: Vec<PromptItem> = Vec::new();
    r.push(starter_0(templates_dir, now));
    r.push(starter_1(templates_dir, now));
    r.push(starter_2(templates_dir, now));
    r.push(starter_3(templates_dir, now));
    r.push(starter_4(templates_dir, now));
    r.push(starter_5(templates_dir, now));
    proof {
        assert(r@.map_values(|p: PromptItem| p@) =~= starter_list(templates_dir@, now@));
    }
    r
}

/// True when one of the listed ids is the given id.
pub open spec fn id_present(ids: Seq<Seq<char>>, id: Seq<char>) -> bool {
    exists|j: int| 0 <= j < ids.len() && ids[j] == id
}

/// True when one of the listed ids equals `id`.
pub fn contains_id(existing_ids: &Vec<String>, id: &str) -> (r: bool)
    ensures
        r == id_present(existing_ids.deep_view(), id@),
{
    let mut i: usize = 0;
    let n = existing_ids.len();
    while i < n
        invariant
            i <= n,
            n == existing_ids@.len(),
            forall|j: int| 0 <= j < i ==> existing_ids@[j]@ != id@,
        decreases n - i,
    {
        if str_eq(existing_ids[i].as_str(), id) {
            proof {
                assert(existing_ids.deep_view()[i as int] == existing_ids@[i as int]@);
            }
            return true;
        }
        i = i + 1;
    }
    proof {
        assert forall|j: int| 0 <= j < existing_ids.deep_view().len()
            implies existing_ids.deep_view()[j] != id@ by {
            assert(existing_ids.deep_view()[j] == existing_ids@[j]@);
        }
    }
    false
}

/// The documents among `ps` whose id is not among `ids`, in order.
pub open spec fn spec_select_missing(ps: Seq<PromptSpec>, ids: Seq<Seq<char>>) -> Seq<PromptSpec>
    decreases ps.len(),
{
    if ps.len() == 0 {
        Seq::empty()
    } else {
        let rest = spec_select_missing(ps.skip(1), ids);
        if !id_present(ids, ps[0].id) {
            seq![ps[0]] + rest
        } else {
            rest
        }
    }
}

proof fn lemma_select_missing_push(ps: Seq<PromptSpec>, x: PromptSpec, ids: Seq<Seq<char>>)
    ensures
        spec_select_missing(ps.push(x), ids) == if !id_present(ids, x.id) {
            spec_select_missing(ps, ids).push(x)
        } else {
            spec_select_missing(ps, ids)
        },
    decreases ps.len(),
{
    if ps.len() == 0 {
        assert(ps.push(x)[0] == x);
        assert(ps.push(x).skip(1) =~= Seq::<PromptSpec>::empty());
        assert(spec_select_missing(Seq::<PromptSpec>::empty(), ids) == Seq::<PromptSpec>::empty());
        assert(ps =~= Seq::<PromptSpec>::empty());
        if !id_present(ids, x.id) {
            assert(spec_select_missing(ps.push(x), ids) =~= spec_select_missing(ps, ids).push(x));
        }
    } else {
        assert(ps.push(x)[0] == ps[0]);
        assert(ps.push(x).skip(1) =~= ps.skip(1).push(x));
        lemma_select_missing_push(ps.skip(1), x, ids);
        if !id_present(ids, x.id) {
            assert(spec_select_missing(ps.push(x), ids) =~= spec_select_missing(ps, ids).push(x));
        }
    }
}

/// What the selection keeps and drops: everything kept is missing from
/// `ids`, and everything missing from `ids` is kept.
pub proof fn lemma_select_missing_sound(ps: Seq<PromptSpec>, ids: Seq<Seq<char>>)
    ensures
        forall|m: int|
            0 <= m < spec_select_missing(ps, ids).len() ==> !id_present(
                ids,
                #[trigger] spec_select_missing(ps, ids)[m].id,
            ),
        forall|k: int|
            0 <= k < ps.len() && !id_present(ids, #[trigger] ps[k].id) ==> spec_select_missing(
                ps,
                ids,
            ).contains(ps[k]),
    decreases ps.len(),
{
    if ps.len() > 0 {
        lemma_select_missing_sound(ps.skip(1), ids);
        let res = spec_select_missing(ps, ids);
        let rest = spec_select_missing(ps.skip(1), ids);
        assert forall|k: int|
            0 <= k < ps.len() && !id_present(ids, #[trigger] ps[k].id) implies spec_select_missing(
            ps,
            ids,
        ).contains(ps[k]) by {
            if k == 0 {
                assert(res[0] == ps[0]);
            } else {
                assert(ps.skip(1)[k - 1] == ps[k]);
                assert(rest.contains(ps[k]));
                let w = choose|w: int| 0 <= w < rest.len() && rest[w] == ps[k];
                if !id_present(ids, ps[0].id) {
                    assert(res[w + 1] == rest[w]);
                } else {
                    assert(res[w] == rest[w]);
                }
            }
        }
        assert forall|m: int|
            0 <= m < res.len() implies !id_present(ids, #[trigger] res[m].id) by {
            if !id_present(ids, ps[0].id) {
                if m > 0 {
                    assert(res[m] == rest[m - 1]);
                }
            } else {
                assert(res[m] == rest[m]);
            }
        }
    }
}

/// Seeding a fully seeded store selects nothing.
pub proof fn lemma_select_missing_all_present(ps: Seq<PromptSpec>, ids: Seq<Seq<char>>)
    requires
        forall|k: int| 0 <= k < ps.len() ==> id_present(ids, #[trigger] ps[k].id),
    ensures
        spec_select_missing(ps, ids).len() == 0,
    decreases ps.len(),
{
    if ps.len() > 0 {
        assert(id_present(ids, ps[0].id));
        assert(forall|k: int|
            0 <= k < ps.skip(1).len() ==> id_present(ids, #[trigger] ps.skip(1)[k].id)) by {
            assert forall|k: int|
                0 <= k < ps.skip(1).len() implies id_present(ids, #[trigger] ps.skip(1)[k].id) by {
                assert(ps.skip(1)[k] == ps[k + 1]);
            }
        }
        lemma_select_missing_all_present(ps.skip(1), ids);
    }
}

fn clone_prompt(p: &PromptItem) -> (r: PromptItem)
    ensures
        r@ == p@,
{
    let r = PromptItem {
        id: p.id.clone(),
        title: p.title.clone(),
        content: p.content.clone(),
        tags: clone_tags(&p.tags),
        description: match &p.description {
            Some(d) => Some(d.clone()),
            None => None,
        },
        use_count: p.use_count,
        last_used: match &p.last_used {
            Some(l) => Some(l.clone()),
            None => None,
        },
        created_at: p.created_at.clone(),
        updated_at: p.updated_at.clone(),
        file_path: p.file_path.clone(),
        folder: p.folder.clone(),
    };
    proof {
        assert(r@ =~~= p@);
    }
    r
}

/// The documents among `prompts` whose id is not among `existing_ids`, in
/// order.
pub fn select_missing(prompts: &Vec<PromptItem>, existing_ids: &Vec<String>) -> (r: Vec<PromptItem>)
    ensures
        r@.map_values(|p: PromptItem| p@) == spec_select_missing(
            prompts@.map_values(|p: PromptItem| p@),
            existing_ids.deep_view(),
        ),
{
    let ghost pv = prompts@.map_values(|p: PromptItem| p@);
    let mut r: Vec<PromptItem> = Vec::new();
    let mut i: usize = 0;
    proof {
        assert(r@.map_values(|p: PromptItem| p@) =~= spec_select_missing(
            pv.take(0),
            existing_ids.deep_view(),
        ));
    }
    while i < prompts.len()
        invariant
            i <= prompts@.len(),
            pv == prompts@.map_values(|p: PromptItem| p@),
            pv.len() == prompts@.len(),
            r@.map_values(|p: PromptItem| p@) == spec_select_missing(
                pv.take(i as int),
                existing_ids.deep_view(),
            ),
        decreases prompts@.len() - i,
    {
        proof {
            assert(pv[i as int] == prompts@[i as int]@);
        }
        if !contains_id(existing_ids, prompts[i].id.as_str()) {
            let c = clone_prompt(&prompts[i]);
            r.push(c);
        }
        proof {
            lemma_select_missing_push(pv.take(i as int), pv[i as int], existing_ids.deep_view());
            assert(pv.take(i as int).push(pv[i as int]) =~= pv.take(i as int + 1));
            assert(r@.map_values(|p: PromptItem| p@) =~= spec_select_missing(
                pv.take(i as int + 1),
                existing_ids.deep_view(),
            ));
        }
        i = i + 1;
    }
    proof {
        assert(pv.take(prompts@.len() as int) =~= pv);
    }
    r
}

/// The starter documents still to be written: exactly those of the built-in
/// set whose id is not among the ids already stored. Seeding is
/// non-destructive — a stored document, edited or not, is never selected
/// again — and seeding a fully seeded store selects nothing.
pub fn seed_starter_documents(templates_dir: &str, existing_ids: &Vec<String>, now: &str) -> (r:
    Vec<PromptItem>)
    ensures
        r@.map_values(|p: PromptItem| p@) == spec_select_missing(
            starter_list(templates_dir@, now@),
            existing_ids.deep_view(),
        ),
        forall|m: int|
            0 <= m < r@.len() ==> !id_present(existing_ids.deep_view(), #[trigger] r@[m]@.id),
        (forall|k: int|
            0 <= k < starter_ids().len() ==> id_present(
                existing_ids.deep_view(),
                #[trigger] starter_ids()[k],
            )) ==> r@.len() == 0,
{
    let all = starter_prompts(templates_dir, now);
    let r = select_missing(&all, existing_ids);
    proof {
        let ids = existing_ids.deep_view();
        let ls = starter_list(templates_dir@, now@);
        lemma_select_missing_sound(ls, ids);
        assert forall|m: int| 0 <= m < r@.len() implies !id_present(
            ids,
            #[trigger] r@[m]@.id,
        ) by {
            assert(r@.map_values(|p: PromptItem| p@)[m] == r@[m]@);
        }
        if forall|k: int|
            0 <= k < starter_ids().len() ==> id_present(ids, #[trigger] starter_ids()[k]) {
            assert forall|k: int| 0 <= k < ls.len() implies id_present(
                ids,
                #[trigger] ls[k].id,
            ) by {
                assert(ls[k].id == starter_ids()[k]);
                assert(id_present(ids, starter_ids()[k]));
            }
            lemma_select_missing_all_present(ls, ids);
        }
    }
    r
}


/// The paths among `prompts` whose file is not already present, selected by
/// file path: the caller reports which paths exist.
pub open spec fn spec_select_missing_paths(ps: Seq<PromptSpec>, paths: Seq<Seq<char>>) -> Seq<
    PromptSpec,
>
    decreases ps.len(),
{
    if ps.len() == 0 {
        Seq::empty()
    } else {
        let rest = spec_select_missing_paths(ps.skip(1), paths);
        if !id_present(paths, ps[0].file_path) {
            seq![ps[0]] + rest
        } else {
            rest
        }
    }
}

proof fn lemma_select_missing_paths_push(ps: Seq<PromptSpec>, x: PromptSpec, paths: Seq<Seq<char>>)
    ensures
        spec_select_missing_paths(ps.push(x), paths) == if !id_present(paths, x.file_path) {
            spec_select_missing_paths(ps, paths).push(x)
        } else {
            spec_select_missing_paths(ps, paths)
        },
    decreases ps.len(),
{
    if ps.len() == 0 {
        assert(ps.push(x)[0] == x);
        assert(ps.push(x).skip(1) =~= Seq::<PromptSpec>::empty());
        assert(spec_select_missing_paths(Seq::<PromptSpec>::empty(), paths)
            == Seq::<PromptSpec>::empty());
        assert(ps =~= Seq::<PromptSpec>::empty());
        if !id_present(paths, x.file_path) {
            assert(spec_select_missing_paths(ps.push(x), paths) =~= spec_select_missing_paths(
                ps,
                paths,
            ).push(x));
        }
    } else {
        assert(ps.push(x)[0] == ps[0]);
        assert(ps.push(x).skip(1) =~= ps.skip(1).push(x));
        lemma_select_missing_paths_push(ps.skip(1), x, paths);
        if !id_present(paths, x.file_path) {
            assert(spec_select_missing_paths(ps.push(x), paths) =~= spec_select_missing_paths(
                ps,
                paths,
            ).push(x));
        }
    }
}

/// The documents among `prompts` whose file path is not among
/// `existing_paths`, in order: what a seeding pass still has to write.
pub fn select_missing_paths(prompts: &Vec<PromptItem>, existing_paths: &Vec<String>) -> (r: Vec<
    PromptItem,
>)
    ensures
        r@.map_values(|p: PromptItem| p@) == spec_select_missing_paths(
            prompts@.map_values(|p: PromptItem| p@),
            existing_paths.deep_view(),
        ),
{
    let ghost pv = prompts@.map_values(|p: PromptItem| p@);
    let mut r: Vec<PromptItem> = Vec::new();
    let mut i: usize = 0;
    proof {
        assert(r@.map_values(|p: PromptItem| p@) =~= spec_select_missing_paths(
            pv.take(0),
            existing_paths.deep_view(),
        ));
    }
    while i < prompts.len()
        invariant
            i <= prompts@.len(),
            pv == prompts@.map_values(|p: PromptItem| p@),
            pv.len() == prompts@.len(),
            r@.map_values(|p: PromptItem| p@) == spec_select_missing_paths(
                pv.take(i as int),
                existing_paths.deep_view(),
            ),
        decreases prompts@.len() - i,
    {
        proof {
            assert(pv[i as int] == prompts@[i as int]@);
        }
        if !contains_id(existing_paths, prompts[i].file_path.as_str()) {
            let c = clone_prompt(&prompts[i]);
            r.push(c);
        }
        proof {
            lemma_select_missing_paths_push(
                pv.take(i as int),
                pv[i as int],
                existing_paths.deep_view(),
            );
            assert(pv.take(i as int).push(pv[i as int]) =~= pv.take(i as int + 1));
            assert(r@.map_values(|p: PromptItem| p@) =~= spec_select_missing_paths(
                pv.take(i as int + 1),
                existing_paths.deep_view(),
            ));
        }
        i = i + 1;
    }
    proof {
        assert(pv.take(prompts@.len() as int) =~= pv);
    }
    r
}

/// The plain built-in template documents, numbered one to five. Their file
/// names are fixed; each id is derived from its title as every id is.
pub open spec fn template_list(dir: Seq<char>, now: Seq<char>) -> Seq<PromptSpec> {
    seq![
        template_spec(dir, now, "template1"@, "Template 1"@, "This is a template"@),
        template_spec(dir, now, "template2"@, "Template 2"@, "This is another template"@),
        template_spec(dir, now, "template3"@, "Template 3"@, "This is yet another template"@),
        template_spec(dir, now, "template4"@, "Template 4"@, "This is a fourth template"@),
        template_spec(dir, now, "template5"@, "Template 5"@, "This is a fifth template"@),
    ]
}

/// One built-in template document.
pub open spec fn template_spec(
    dir: Seq<char>,
    now: Seq<char>,
    stem: Seq<char>,
    title: Seq<char>,
    content: Seq<char>,
) -> PromptSpec {
    PromptSpec {
        id: spec_sanitize(title),
        title: title,
        content: content,
        tags: Seq::empty(),
        description: None,
        use_count: 0,
        last_used: None,
        created_at: now,
        updated_at: now,
        file_path: spec_file_in_dir(dir, stem),
        folder: "templates"@,
    }
}

fn template_item(dir: &str, now: &str, stem: &str, title: &str, content: &str) -> (r: PromptItem)
    ensures
        r@ == template_spec(dir@, now@, stem@, title@, content@),
{
    let no_tags: Vec<String> = Vec::new();
    proof {
        assert(no_tags.deep_view() =~= Seq::<Seq<char>>::empty());
    }
    let r = PromptItem {
        id: sanitize_filename(title),
        title: String::from_str(title),
        content: String::from_str(content),
        tags: no_tags,
        description: None,
        use_count: 0,
        last_used: None,
        created_at: String::from_str(now),
        updated_at: String::from_str(now),
        file_path: file_in_dir(dir, stem),
        folder: String::from_str("templates"),
    };
    proof {
        assert(r@ =~~= template_spec(dir@, now@, stem@, title@, content@));
    }
    r
}

/// The built-in plain templates that initialization writes, all five in
/// their fixed order; the caller writes each whose file does not exist yet.
pub fn init_templates_items(templates_dir: &str, now: &str) -> (r: Vec<PromptItem>)
    ensures
        r@.map_values(|p: PromptItem| p@) == template_list(templates_dir@, now@),
{
    let mut r: Vec<PromptItem> = Vec::new();
    r.push(template_item(templates_dir, now, "template1", "Template 1", "This is a template"));
    r.push(
        template_item(templates_dir, now, "template2", "Template 2", "This is another template"),
    );
    r.push(
        template_item(
            templates_dir,
            now,
            "template3",
            "Template 3",
            "This is yet another template",
        ),
    );
    r.push(
        template_item(templates_dir, now, "template4", "Template 4", "This is a fourth template"),
    );
    r.push(
        template_item(templates_dir, now, "template5", "Template 5", "This is a fifth template"),
    );
    proof {
        assert(r@.map_values(|p: PromptItem| p@) =~= template_list(templates_dir@, now@));
    }
    r
}

/// True when a listed file name passes the extension filter: no filter
/// accepts everything, a filter accepts the names it ends.
pub fn file_name_matches(name: &str, extension: &Option<String>) -> (r: bool)
    ensures
        r == (match extension {
            Some(ext) => name@.len() >= ext@.len() && name@.skip(name@.len() - ext@.len()) == ext@,
            None => true,
        }),
{
    match extension {
        Some(ext) => {
            let nv = chars_of(name);
            let ev = chars_of(ext.as_str());
            if ev.len() > nv.len() {
                return false;
            }
            let n = nv.len();
            let m = ev.len();
            let tail = subvec(&nv, n - m, n);
            proof {
                assert(tail@ =~= name@.skip(name@.len() - ext@.len()));
            }
            vec_eq(&tail, &ev)
        },
        None => true,
    }
}

} // verus!


