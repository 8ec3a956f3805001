//! The built-in agents every installation starts with, and which of them
//! still have to be added.
use vstd::prelude::*;

use crate::text::str_eq;

verus! {

/// A built-in agent: its name, description and system prompt.
#[derive(Debug, Clone, Copy)]
pub struct BuiltinAgent {
    pub name: &'static str,
    pub description: &'static str,
    pub system_prompt: &'static str,
}

/// The names of the built-in agents, in order.
pub open spec fn builtin_names() -> Seq<Seq<char>> {
    seq![
        "短视频脚本师"@,
        "文案优化师"@,
        "品牌定位顾问"@,
        "竞品分析师"@,
        "合同审查员"@,
        "法务顾问"@,
        "税务计算器"@,
        "周报月报生成器"@,
    ]
}

/// The built-in agents, in order.
pub fn builtin_agents() -> (r: Vec<BuiltinAgent>)
    ensures
        r@.map_values(|a: BuiltinAgent| a.name@) == builtin_names(),
{
    let mut r: Vec<BuiltinAgent> = Vec::new();
    r.push(BuiltinAgent {
        name: "短视频脚本师",
        description: "专精于口播、剧情、Vlog 等类型的短视频脚本创作",
        system_prompt: "你是一位短视频脚本专家，专精于口播、剧情、Vlog 等类型的内容创作。你熟悉抖音、B站、小红书等平台的调性和算法偏好。\n\n## 你的能力\n- 根据选题快速生成 15s/30s/60s/3min 的脚本\n- 设计黄金 3 秒开头的钩子（好奇、冲突、反常识）\n- 控制节奏：每 3-5 秒一个信息点或情绪点\n- 适配品牌调性（专业/幽默/温情/犀利）\n- 输出格式：标题|时长|画面描述|口播内容|BGM建议|注意事项",
    });
    r.push(BuiltinAgent {
        name: "文案优化师",
        description: "精通社交媒体文案优化，提升标题/简介/评论的点击率和互动率",
        system_prompt: "你是一位资深社交媒体文案编辑，精通各平台的内容风格和用户心理。\n\n## 你的能力\n- 优化标题/简介/评论区文案，提升点击率和互动率\n- 适配不同平台风格\n- 植入 SEO 关键词和热门标签\n- 保持品牌调性统一\n- 输出：原文|优化后|改动说明",
    });
    r.push(BuiltinAgent {
        name: "品牌定位顾问",
        description: "梳理品牌核心价值、差异化定位，输出品牌手册",
        system_prompt: "你是一位品牌战略顾问，专注于帮助一人公司/小团队建立清晰的品牌定位。\n\n## 你的能力\n- 梳理品牌核心价值、使命愿景、差异化定位\n- 输出品牌手册\n- 基于 STP 框架和品牌金字塔模型\n- 分析竞争对手的品牌策略",
    });
    r.push(BuiltinAgent {
        name: "竞品分析师",
        description: "系统分析竞品内容策略、受众画像、变现模式",
        system_prompt: "你是一位竞争情报分析师，擅长系统性地分析竞争对手。\n\n## 你的能力\n- 识别直接竞品和间接竞品\n- 分析竞品的内容策略、受众画像、变现模式\n- 用 SWOT 框架对比优劣势\n- 找出差异化机会",
    });
    r.push(BuiltinAgent {
        name: "合同审查员",
        description: "审查合同条款，标注风险点和不合理条款",
        system_prompt: "你是一位合同审查助手，帮助用户快速识别合同中的风险和问题。\n\n## 你的能力\n- 识别合同中的常见风险条款\n- 标注不合理条款和模糊表达\n- 给出修改建议和谈判话术\n- 特别关注：知识产权归属、竞业限制、保密条款",
    });
    r.push(BuiltinAgent {
        name: "法务顾问",
        description: "解答著作权、肖像权、商标、合同等法律知识",
        system_prompt: "你是一位法律知识助手，帮助用户了解与创业经营相关的基础法律知识。\n\n## 你的能力\n- 解答著作权、商标、专利等知识产权问题\n- 解读合同法、劳动法、广告法\n- 提供法律风险防范建议\n- 用通俗易懂的语言解释法律概念",
    });
    r.push(BuiltinAgent {
        name: "税务计算器",
        description: "估算个税、增值税、企业所得税",
        system_prompt: "你是一位税务估算助手。\n\n## 你的能力\n- 解释个税、增值税、企业所得税的基本规则\n- 根据收入估算应缴税额\n- 解释小微企业税收优惠政策\n- 对比不同纳税主体的税负差异",
    });
    r.push(BuiltinAgent {
        name: "周报月报生成器",
        description: "基于工作记录自动生成周报/月报",
        system_prompt: "你是一位汇报助手。\n\n## 你的能力\n- 从工作记录中提取关键工作项\n- 结构化汇报：本周完成|数据亮点|遇到的问题|下周计划|需要的资源\n- 量化工作成果\n- 适配不同汇报对象",
    });
    assert(r@.map_values(|a: BuiltinAgent| a.name@) =~= builtin_names());
    r
}

/// The names among `names` that are not in `existing`, in order.
pub open spec fn missing_names(names: Seq<Seq<char>>, existing: Seq<Seq<char>>) -> Seq<Seq<char>> {
    names.filter(|n: Seq<char>| !existing.contains(n))
}

/// A built-in agent to add, with the order key it gets.
#[derive(Debug, Clone, Copy)]
pub struct SeedAgent {
    pub agent: BuiltinAgent,
    pub order_key: i64,
}

/// Whether `name` is among `existing`.
fn name_taken(existing: &Vec<String>, name: &str) -> (r: bool)
    ensures
        r == existing@.map_values(|s: String| s@).contains(name@),
{
    let ghost views = existing@.map_values(|s: String| s@);
    let mut i: usize = 0;
    while i < existing.len()
        invariant
            i <= existing@.len(),
            views == existing@.map_values(|s: String| s@),
            forall|j: int| 0 <= j < i ==> views[j] != name@,
        decreases existing@.len() - i,
    {
        if str_eq(existing[i].as_str(), name) {
            assert(views[i as int] == name@);
            return true;
        }
        i += 1;
    }
    false
}

/// The built-in agents whose names are not taken yet (by a built-in or a
/// user's agent), in order, numbered with consecutive order keys from
/// `next_order`.
pub fn agents_to_seed(existing: &Vec<String>, next_order: i64) -> (r: Vec<SeedAgent>)
    requires
        next_order <= i64::MAX - 8,
    ensures
        r@.map_values(|s: SeedAgent| s.agent.name@) == missing_names(
            builtin_names(),
            existing@.map_values(|s: String| s@),
        ),
        forall|k: int| 0 <= k < r@.len() ==> #[trigger] r@[k].order_key == next_order + k,
{
    let all = builtin_agents();
    let ghost ex = existing@.map_values(|s: String| s@);
    let ghost names = builtin_names();
    let mut out: Vec<SeedAgent> = Vec::new();
    let mut i: usize = 0;
    let mut order = next_order;
    assert(all@.len() == all@.map_values(|a: BuiltinAgent| a.name@).len());
    assert(names.len() == 8);
    assert(names.take(0).filter(|n: Seq<char>| !ex.contains(n)) =~= Seq::<Seq<char>>::empty());
    assert(out@.map_values(|s: SeedAgent| s.agent.name@) =~= Seq::<Seq<char>>::empty());
    while i < all.len()
        invariant
            all@.map_values(|a: BuiltinAgent| a.name@) == names,
            names == builtin_names(),
            all@.len() == 8,
            ex == existing@.map_values(|s: String| s@),
            i <= all@.len(),
            out@.len() <= i,
            order == next_order + out@.len(),
            next_order <= i64::MAX - 8,
            out@.map_values(|s: SeedAgent| s.agent.name@) == names.take(i as int).filter(|n: Seq<char>| !ex.contains(n)),
            forall|k: int| 0 <= k < out@.len() ==> #[trigger] out@[k].order_key == next_order + k,
        decreases all@.len() - i,
    {
        let a = all[i];
        assert(names[i as int] == a.name@);
        assert(names.take(i + 1) =~= names.take(i as int).push(a.name@));
        proof {
            names.take(i as int).lemma_filter_push(a.name@, |n: Seq<char>| !ex.contains(n));
        }
        if !name_taken(existing, a.name) {
            let ghost before = out@;
            out.push(SeedAgent { agent: a, order_key: order });
            assert(out@.map_values(|s: SeedAgent| s.agent.name@) =~= before.map_values(|s: SeedAgent| s.agent.name@).push(a.name@));
            order = order + 1;
        }
        i += 1;
    }
    assert(names.take(names.len() as int) =~= names);
    out
}

/// Adding the missing built-in agents once is enough: with their names
/// added to the existing ones, none is missing any more.
pub proof fn law_seeding_idempotent(existing: Seq<Seq<char>>)
    ensures
        missing_names(builtin_names(), existing + missing_names(builtin_names(), existing)).len() == 0,
{
    let names = builtin_names();
    let added = missing_names(names, existing);
    let after = existing + added;
    assert forall|k: int| 0 <= k < names.len() implies after.contains(#[trigger] names[k]) by {
        if existing.contains(names[k]) {
            let j = choose|j: int| 0 <= j < existing.len() && existing[j] == names[k];
            assert(after[j] == names[k]);
        } else {
            lemma_filter_keeps(names, existing, k);
            let j = choose|j: int| 0 <= j < added.len() && added[j] == names[k];
            assert(after[existing.len() + j] == names[k]);
        }
    }
    lemma_filter_all_dropped(names, after);
}

/// An element of `names` not in `existing` is among the missing names.
proof fn lemma_filter_keeps(names: Seq<Seq<char>>, existing: Seq<Seq<char>>, k: int)
    requires
        0 <= k < names.len(),
        !existing.contains(names[k]),
    ensures
        missing_names(names, existing).contains(names[k]),
    decreases names.len(),
{
    let f = |n: Seq<char>| !existing.contains(n);
    let init = names.drop_last();
    assert(names =~= init.push(names.last()));
    init.lemma_filter_push(names.last(), f);
    if k == names.len() - 1 {
        assert(names.filter(f).last() == names[k]);
    } else {
        lemma_filter_keeps(init, existing, k);
        assert(init[k] == names[k]);
        let j = choose|j: int| 0 <= j < init.filter(f).len() && init.filter(f)[j] == names[k];
        assert(names.filter(f)[j] == names[k]);
    }
}

/// When every name is among `existing`, none is missing.
proof fn lemma_filter_all_dropped(names: Seq<Seq<char>>, existing: Seq<Seq<char>>)
    requires
        forall|k: int| 0 <= k < names.len() ==> existing.contains(#[trigger] names[k]),
    ensures
        missing_names(names, existing).len() == 0,
    decreases names.len(),
{
    if names.len() > 0 {
        let f = |n: Seq<char>| !existing.contains(n);
        let init = names.drop_last();
        assert(names =~= init.push(names.last()));
        init.lemma_filter_push(names.last(), f);
        assert forall|k: int| 0 <= k < init.len() implies existing.contains(#[trigger] init[k]) by {
            assert(init[k] == names[k]);
        }
        lemma_filter_all_dropped(init, existing);
        assert(existing.contains(names[names.len() - 1]));
    }
}

/// The built-in names are all different (their first characters differ).
proof fn lemma_builtin_names_distinct()
    ensures
        builtin_names().no_duplicates(),
{
    reveal_strlit("短视频脚本师");
    reveal_strlit("文案优化师");
    reveal_strlit("品牌定位顾问");
    reveal_strlit("竞品分析师");
    reveal_strlit("合同审查员");
    reveal_strlit("法务顾问");
    reveal_strlit("税务计算器");
    reveal_strlit("周报月报生成器");
    let b = builtin_names();
    let firsts = seq!['短', '文', '品', '竞', '合', '法', '税', '周'];
    assert forall|k: int| 0 <= k < 8 implies #[trigger] b[k][0] == firsts[k] by {
        if k == 0 {} else if k == 1 {} else if k == 2 {} else if k == 3 {}
        else if k == 4 {} else if k == 5 {} else if k == 6 {} else {}
    }
    assert forall|i: int, j: int| 0 <= i < b.len() && 0 <= j < b.len() && i != j implies b[i] != b[j] by {
        assert(b[i][0] == firsts[i]);
        assert(b[j][0] == firsts[j]);
        assert(firsts[i] != firsts[j]);
    }
}

/// Every missing name is one of `names` and not among `existing`.
proof fn lemma_missing_from_names(names: Seq<Seq<char>>, existing: Seq<Seq<char>>)
    ensures
        forall|k: int|
            0 <= k < missing_names(names, existing).len() ==> names.contains(
                #[trigger] missing_names(names, existing)[k],
            ) && !existing.contains(missing_names(names, existing)[k]),
    decreases names.len(),
{
    if names.len() == 0 {
        assert(names.filter(|n: Seq<char>| !existing.contains(n)) =~= Seq::<Seq<char>>::empty()) by {
            reveal(Seq::filter);
        }
    } else {
        let f = |n: Seq<char>| !existing.contains(n);
        let init = names.drop_last();
        assert(names =~= init.push(names.last()));
        init.lemma_filter_push(names.last(), f);
        lemma_missing_from_names(init, existing);
        let m = missing_names(names, existing);
        assert forall|k: int| 0 <= k < m.len() implies names.contains(#[trigger] m[k]) && !existing.contains(m[k]) by {
            if k < init.filter(f).len() {
                assert(m[k] == init.filter(f)[k]);
                assert(missing_names(init, existing)[k] == m[k]);
                assert(init.contains(missing_names(init, existing)[k]));
                let j = choose|j: int| 0 <= j < init.len() && init[j] == m[k];
                assert(names[j] == m[k]);
            } else {
                assert(m[k] == names.last());
                assert(names[names.len() - 1] == m[k]);
            }
        }
    }
}

/// When `names` has no repeats, neither have the missing names.
proof fn lemma_missing_distinct(names: Seq<Seq<char>>, existing: Seq<Seq<char>>)
    requires
        names.no_duplicates(),
    ensures
        missing_names(names, existing).no_duplicates(),
    decreases names.len(),
{
    if names.len() == 0 {
        assert(names.filter(|n: Seq<char>| !existing.contains(n)) =~= Seq::<Seq<char>>::empty()) by {
            reveal(Seq::filter);
        }
    } else {
        let f = |n: Seq<char>| !existing.contains(n);
        let init = names.drop_last();
        assert(names =~= init.push(names.last()));
        init.lemma_filter_push(names.last(), f);
        assert(init.no_duplicates()) by {
            assert forall|i: int, j: int| 0 <= i < init.len() && 0 <= j < init.len() && i != j implies init[i] != init[j] by {
                assert(init[i] == names[i] && init[j] == names[j]);
            }
        }
        lemma_missing_distinct(init, existing);
        lemma_missing_from_names(init, existing);
        let mi = init.filter(f);
        if f(names.last()) {
            assert forall|k: int| 0 <= k < mi.len() implies #[trigger] mi[k] != names.last() by {
                assert(missing_names(init, existing)[k] == mi[k]);
                let j = choose|j: int| 0 <= j < init.len() && init[j] == mi[k];
                assert(names[j] == init[j]);
                assert(names[names.len() - 1] == names.last());
            }
            let m = mi.push(names.last());
            assert forall|i: int, j: int| 0 <= i < m.len() && 0 <= j < m.len() && i != j implies m[i] != m[j] by {
                if i < mi.len() && j < mi.len() {
                    assert(m[i] == mi[i] && m[j] == mi[j]);
                } else if i < mi.len() {
                    assert(m[i] == mi[i]);
                } else if j < mi.len() {
                    assert(m[j] == mi[j]);
                }
            }
        }
    }
}

/// Seeding the built-in agents into agents named `existing` adds the
/// built-in names not taken yet, after the existing agents, each once and
/// none already taken; afterwards the names are the earlier ones together
/// with every built-in name, and a second seeding adds nothing.
pub proof fn law_seeding_completes_names(existing: Seq<Seq<char>>)
    ensures
        ({
            let added = missing_names(builtin_names(), existing);
            let after = existing + added;
            &&& after.take(existing.len() as int) == existing
            &&& added.no_duplicates()
            &&& forall|k: int| 0 <= k < added.len() ==> !existing.contains(#[trigger] added[k])
            &&& after.to_set() == existing.to_set().union(builtin_names().to_set())
            &&& missing_names(builtin_names(), after).len() == 0
        }),
{
    let b = builtin_names();
    let added = missing_names(b, existing);
    let after = existing + added;
    lemma_builtin_names_distinct();
    lemma_missing_distinct(b, existing);
    lemma_missing_from_names(b, existing);
    law_seeding_idempotent(existing);
    assert(after.take(existing.len() as int) =~= existing);
    assert forall|x: Seq<char>| after.to_set().contains(x) <==> existing.to_set().union(b.to_set()).contains(x) by {
        if after.contains(x) {
            let j = choose|j: int| 0 <= j < after.len() && after[j] == x;
            if j >= existing.len() {
                assert(added[j - existing.len()] == x);
                assert(b.contains(x));
            } else {
                assert(existing[j] == x);
            }
        }
        if existing.contains(x) {
            let j = choose|j: int| 0 <= j < existing.len() && existing[j] == x;
            assert(after[j] == x);
        } else if b.contains(x) {
            let k = choose|k: int| 0 <= k < b.len() && b[k] == x;
            lemma_filter_keeps(b, existing, k);
            let j = choose|j: int| 0 <= j < added.len() && added[j] == x;
            assert(after[existing.len() + j] == x);
        }
    }
    assert(after.to_set() =~= existing.to_set().union(b.to_set()));
}

} // verus!
