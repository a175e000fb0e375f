//! Checking that a project's details hold what the grabbing steps rely on.

use vstd::prelude::*;
use crate::model::TicketInfo;

verus! {

/// `list` joined with `sep` between consecutive elements.
pub open spec fn seq_join(list: Seq<Seq<char>>, sep: Seq<char>) -> Seq<char>
    decreases list.len(),
{
    if list.len() == 0 {
        seq![]
    } else if list.len() == 1 {
        list[0]
    } else {
        seq_join(list.drop_last(), sep) + sep + list.last()
    }
}

/// `label` when `missing` holds, nothing otherwise.
pub open spec fn label_if(missing: bool, label: Seq<char>) -> Seq<Seq<char>> {
    if missing {
        seq![label]
    } else {
        seq![]
    }
}

/// The labels of the required fields that `info` lacks, in this order: the
/// id, the name, the sale start, the real-name binding flag, the hot-project
/// flag, and the screen list (which must not be empty).
pub open spec fn missing_fields(info: TicketInfo) -> Seq<Seq<char>> {
    label_if(info.id is None, "id(项目ID)"@)
        + label_if(info.name is None, "name(项目名称)"@)
        + label_if(info.sale_begin is None, "sale_begin(开售时间)"@)
        + label_if(info.id_bind is None, "id_bind(实名绑定标识)"@)
        + label_if(info.hot_project is None, "hotProject(热门项目标识)"@)
        + label_if(info.screen_list@.len() == 0, "screen_list(场次列表为空)"@)
}

/// The message that reports the missing fields.
pub open spec fn validation_message(missing: Seq<Seq<char>>) -> Seq<char> {
    "项目信息校验失败，以下必需字段缺失或为空: ["@ + seq_join(missing, ", "@) + "]"@
}

/// All the fields that the grabbing steps rely on are present.
pub open spec fn is_complete(info: TicketInfo) -> bool {
    &&& info.id is Some
    &&& info.name is Some
    &&& info.sale_begin is Some
    &&& info.id_bind is Some
    &&& info.hot_project is Some
    &&& info.screen_list@.len() > 0
}

/// The views of a list of string slices.
pub open spec fn views_of(v: Seq<&str>) -> Seq<Seq<char>> {
    v.map_values(|s: &str| s@)
}

/// `list` joined with `sep`.
fn join_strs(list: &Vec<&str>, sep: &str) -> (res: String)
    ensures
        res@ == seq_join(views_of(list@), sep@),
{
    let ghost views = views_of(list@);
    let mut res = String::new();
    let n = list.len();
    let mut i: usize = 0;
    while i < n
        invariant
            n == list@.len(),
            views == views_of(list@),
            i <= n,
            res@ == seq_join(views.take(i as int), sep@),
        decreases n - i,
    {
        assert(views.take(i + 1).drop_last() =~= views.take(i as int));
        assert(views.take(i + 1).last() == list@[i as int]@);
        if i != 0 {
            res.append(sep);
        } else {
            assert(views.take(1) =~= seq![list@[0]@]);
        }
        res.append(list[i]);
        i = i + 1;
    }
    assert(views.take(n as int) =~= views);
    res
}

impl TicketInfo {
    /// Checks that the fields the grabbing steps rely on are present:
    /// `Ok(())` when none is missing, else `Err` with a message that lists
    /// the missing ones (see `missing_fields` and `validation_message`).
    pub fn validate(&self) -> (res: Result<(), String>)
        ensures
            res is Ok <==> missing_fields(*self).len() == 0,
            res is Ok <==> is_complete(*self),
            res matches Err(msg) ==> msg@ == validation_message(missing_fields(*self)),
    {
        let mut missing: Vec<&str> = Vec::new();
        if self.id.is_none() {
            missing.push("id(项目ID)");
        }
        let ghost l1 = views_of(missing@);
        if self.name.is_none() {
            missing.push("name(项目名称)");
        }
        let ghost l2 = views_of(missing@);
        if self.sale_begin.is_none() {
            missing.push("sale_begin(开售时间)");
        }
        let ghost l3 = views_of(missing@);
        if self.id_bind.is_none() {
            missing.push("id_bind(实名绑定标识)");
        }
        let ghost l4 = views_of(missing@);
        if self.hot_project.is_none() {
            missing.push("hotProject(热门项目标识)");
        }
        let ghost l5 = views_of(missing@);
        if self.screen_list.len() == 0 {
            missing.push("screen_list(场次列表为空)");
        }
        proof {
            assert(l1 =~= label_if(self.id is None, "id(项目ID)"@));
            assert(l2 =~= l1 + label_if(self.name is None, "name(项目名称)"@));
            assert(l3 =~= l2 + label_if(self.sale_begin is None, "sale_begin(开售时间)"@));
            assert(l4 =~= l3 + label_if(self.id_bind is None, "id_bind(实名绑定标识)"@));
            assert(l5 =~= l4 + label_if(self.hot_project is None, "hotProject(热门项目标识)"@));
            assert(views_of(missing@) =~= l5 + label_if(
                self.screen_list@.len() == 0,
                "screen_list(场次列表为空)"@,
            ));
            assert(views_of(missing@) =~= missing_fields(*self));
        }
        if missing.len() == 0 {
            Ok(())
        } else {
            let joined = join_strs(&missing, ", ");
            let mut msg = String::from_str("项目信息校验失败，以下必需字段缺失或为空: [");
            msg.append(joined.as_str());
            msg.append("]");
            Err(msg)
        }
    }
}


/// The report of a failed check names each required field exactly when it is
/// missing: the id, the name, the sale start, the real-name binding flag,
/// the hot-project flag, and a non-empty screen list; it names nothing else,
/// and it reads "项目信息校验失败，以下必需字段缺失或为空: [" + the names + "]".
pub proof fn law_report_names_the_missing_fields(info: TicketInfo)
    ensures
        missing_fields(info).contains("id(项目ID)"@) <==> info.id is None,
        missing_fields(info).contains("name(项目名称)"@) <==> info.name is None,
        missing_fields(info).contains("sale_begin(开售时间)"@) <==> info.sale_begin is None,
        missing_fields(info).contains("id_bind(实名绑定标识)"@) <==> info.id_bind is None,
        missing_fields(info).contains("hotProject(热门项目标识)"@) <==> info.hot_project is None,
        missing_fields(info).contains("screen_list(场次列表为空)"@) <==> info.screen_list@.len() == 0,
        missing_fields(info).len() == (if info.id is None { 1int } else { 0int }) + (if info.name is None {
            1int
        } else {
            0int
        }) + (if info.sale_begin is None { 1int } else { 0int }) + (if info.id_bind is None {
            1int
        } else {
            0int
        }) + (if info.hot_project is None { 1int } else { 0int }) + (if info.screen_list@.len() == 0 {
            1int
        } else {
            0int
        }),
        missing_fields(info).len() == 0 <==> is_complete(info),
        validation_message(missing_fields(info)).take(23) == "项目信息校验失败，以下必需字段缺失或为空: ["@,
        validation_message(missing_fields(info)).last() == ']',
{
    reveal_strlit("id(项目ID)");
    reveal_strlit("name(项目名称)");
    reveal_strlit("sale_begin(开售时间)");
    reveal_strlit("id_bind(实名绑定标识)");
    reveal_strlit("hotProject(热门项目标识)");
    reveal_strlit("screen_list(场次列表为空)");
    reveal_strlit("项目信息校验失败，以下必需字段缺失或为空: [");
    reveal_strlit("]");
    let l0 = label_if(info.id is None, "id(项目ID)"@);
    let l1 = label_if(info.name is None, "name(项目名称)"@);
    let l2 = label_if(info.sale_begin is None, "sale_begin(开售时间)"@);
    let l3 = label_if(info.id_bind is None, "id_bind(实名绑定标识)"@);
    let l4 = label_if(info.hot_project is None, "hotProject(热门项目标识)"@);
    let l5 = label_if(info.screen_list@.len() == 0, "screen_list(场次列表为空)"@);
    let m = missing_fields(info);
    assert(m == l0 + l1 + l2 + l3 + l4 + l5);
    let labels = seq![
        "id(项目ID)"@,
        "name(项目名称)"@,
        "sale_begin(开售时间)"@,
        "id_bind(实名绑定标识)"@,
        "hotProject(热门项目标识)"@,
        "screen_list(场次列表为空)"@,
    ];
    let present = seq![
        info.id is None,
        info.name is None,
        info.sale_begin is None,
        info.id_bind is None,
        info.hot_project is None,
        info.screen_list@.len() == 0,
    ];
    assert forall|a: int, b: int| 0 <= a < b < 6 implies labels[a] != labels[b] by {
        assert(labels[a].len() != labels[b].len() || labels[a][0] != labels[b][0]);
    }
    assert forall|x: Seq<char>| m.contains(x) implies labels.contains(x) by {
        let i = choose|i: int| 0 <= i < m.len() && m[i] == x;
        lemma_concat6_element(l0, l1, l2, l3, l4, l5, i);
    }
    assert forall|q: int| 0 <= q < 6 implies (m.contains(#[trigger] labels[q]) <==> present[q]) by {
        if present[q] {
            lemma_concat6_has(l0, l1, l2, l3, l4, l5, q);
        } else {
            if m.contains(labels[q]) {
                let i = choose|i: int| 0 <= i < m.len() && m[i] == labels[q];
                lemma_concat6_element(l0, l1, l2, l3, l4, l5, i);
            }
        }
    }
    assert(m.contains(labels[0]) <==> present[0]);
    assert(m.contains(labels[1]) <==> present[1]);
    assert(m.contains(labels[2]) <==> present[2]);
    assert(m.contains(labels[3]) <==> present[3]);
    assert(m.contains(labels[4]) <==> present[4]);
    assert(m.contains(labels[5]) <==> present[5]);
    let msg = validation_message(m);
    let head = "项目信息校验失败，以下必需字段缺失或为空: ["@;
    assert(head.len() == 23);
    assert(msg.take(23) =~= head);
    assert(msg.last() == ']');
}

proof fn lemma_concat6_element(
    l0: Seq<Seq<char>>,
    l1: Seq<Seq<char>>,
    l2: Seq<Seq<char>>,
    l3: Seq<Seq<char>>,
    l4: Seq<Seq<char>>,
    l5: Seq<Seq<char>>,
    i: int,
)
    requires
        0 <= i < (l0 + l1 + l2 + l3 + l4 + l5).len(),
    ensures
        ({
            let x = (l0 + l1 + l2 + l3 + l4 + l5)[i];
            l0.contains(x) || l1.contains(x) || l2.contains(x) || l3.contains(x) || l4.contains(x)
                || l5.contains(x)
        }),
{
    let s = l0 + l1 + l2 + l3 + l4 + l5;
    let x = s[i];
    let a = l0.len() as int;
    let b = a + l1.len();
    let c = b + l2.len();
    let d = c + l3.len();
    let e = d + l4.len();
    if i < a {
        assert(l0[i] == x);
    } else if i < b {
        assert(l1[i - a] == x);
    } else if i < c {
        assert(l2[i - b] == x);
    } else if i < d {
        assert(l3[i - c] == x);
    } else if i < e {
        assert(l4[i - d] == x);
    } else {
        assert(l5[i - e] == x);
    }
}

proof fn lemma_concat6_has(
    l0: Seq<Seq<char>>,
    l1: Seq<Seq<char>>,
    l2: Seq<Seq<char>>,
    l3: Seq<Seq<char>>,
    l4: Seq<Seq<char>>,
    l5: Seq<Seq<char>>,
    q: int,
)
    requires
        0 <= q < 6,
        q == 0 ==> l0.len() > 0,
        q == 1 ==> l1.len() > 0,
        q == 2 ==> l2.len() > 0,
        q == 3 ==> l3.len() > 0,
        q == 4 ==> l4.len() > 0,
        q == 5 ==> l5.len() > 0,
    ensures
        q == 0 ==> (l0 + l1 + l2 + l3 + l4 + l5).contains(l0[0]),
        q == 1 ==> (l0 + l1 + l2 + l3 + l4 + l5).contains(l1[0]),
        q == 2 ==> (l0 + l1 + l2 + l3 + l4 + l5).contains(l2[0]),
        q == 3 ==> (l0 + l1 + l2 + l3 + l4 + l5).contains(l3[0]),
        q == 4 ==> (l0 + l1 + l2 + l3 + l4 + l5).contains(l4[0]),
        q == 5 ==> (l0 + l1 + l2 + l3 + l4 + l5).contains(l5[0]),
{
    let s = l0 + l1 + l2 + l3 + l4 + l5;
    let a = l0.len() as int;
    let b = a + l1.len();
    let c = b + l2.len();
    let d = c + l3.len();
    let e = d + l4.len();
    if q == 0 {
        assert(s[0] == l0[0]);
    } else if q == 1 {
        assert(s[a] == l1[0]);
    } else if q == 2 {
        assert(s[b] == l2[0]);
    } else if q == 3 {
        assert(s[c] == l3[0]);
    } else if q == 4 {
        assert(s[d] == l4[0]);
    } else {
        assert(s[e] == l5[0]);
    }
}

} // verus!
