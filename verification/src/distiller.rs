//! What memory distillation decides before and after it asks the language
//! model: which conversation turns are too trivial to remember, which tool
//! results are read-only, the text handed to the model, and where its
//! answer's JSON array stands. Asking the model and scoring the memories it
//! returns are the caller's part.
use vstd::prelude::*;
use crate::text::{
    chars_of, lower_seq, lower_vec, owned, push_all, starts_with, str_eq, strip_prefix,
    strip_prefix_spec, trim, trim_vec, string_of,
};
use crate::vault::RawMemoryTurn;

verus! {

/// Tools whose results hold nothing worth remembering.
pub open spec fn readonly_tool(name: Seq<char>) -> bool {
    name == "list_files"@ || name == "list_files_detailed"@ || name == "read_file"@
        || name == "read_many_files"@ || name == "read_file_chunk"@ || name == "search_files"@
        || name == "file_exists"@ || name == "get_file_info"@ || name == "git_status"@
        || name == "git_log"@ || name == "git_diff"@ || name == "git_show"@
        || name == "git_branch_list"@
}

pub fn is_readonly_tool(tool_name: &str) -> (r: bool)
    ensures
        r == readonly_tool(tool_name@),
{
    str_eq(tool_name, "list_files") || str_eq(tool_name, "list_files_detailed") || str_eq(tool_name, "read_file")
        || str_eq(tool_name, "read_many_files") || str_eq(tool_name, "read_file_chunk")
        || str_eq(tool_name, "search_files") || str_eq(tool_name, "file_exists")
        || str_eq(tool_name, "get_file_info") || str_eq(tool_name, "git_status")
        || str_eq(tool_name, "git_log") || str_eq(tool_name, "git_diff")
        || str_eq(tool_name, "git_show") || str_eq(tool_name, "git_branch_list")
}

/// Greetings and pleasantries that open a trivial turn.
pub open spec fn trivial_prefixes() -> Seq<Seq<char>> {
    seq![
        "hi"@, "hello"@, "hey"@, "hola"@, "buenas"@, "good morning"@, "good afternoon"@,
        "good evening"@, "how can i help"@, "how may i help"@, "what can i help"@,
        "what do you want to set up today"@,
    ]
}

/// `char::is_ascii_whitespace`.
pub open spec fn ascii_ws(c: char) -> bool {
    c == ' ' || c == '\t' || c == '\n' || c == '\x0c' || c == '\r'
}

/// A character of a short reply: ASCII letter, digit, whitespace or `,.!?'`.
pub open spec fn short_reply_char(c: char) -> bool {
    crate::text::is_ascii_alnum(c) || ascii_ws(c) || c == ',' || c == '.' || c == '!' || c == '?' || c == '\''
}

/// A turn worth no memory: blank once trimmed; or, trimmed and in ASCII lower
/// case, at most twelve characters of short-reply text; or opening with a
/// greeting.
pub open spec fn trivial_turn(text: Seq<char>) -> bool {
    let n = lower_seq(trim(text));
    ||| n.len() == 0
    ||| (n.len() <= 12 && forall|i: int| 0 <= i < n.len() ==> #[trigger] short_reply_char(n[i]))
    ||| exists|k: int| 0 <= k < trivial_prefixes().len() && #[trigger] trivial_prefixes()[k].is_prefix_of(n)
}

fn short_reply_char_exec(c: char) -> (r: bool)
    ensures
        r == short_reply_char(c),
{
    ('a' <= c && c <= 'z') || ('A' <= c && c <= 'Z') || ('0' <= c && c <= '9') || c == ' ' || c == '\t'
        || c == '\n' || c == '\x0c' || c == '\r' || c == ',' || c == '.' || c == '!' || c == '?' || c == '\''
}

pub fn is_trivial_conversation_turn(text: &str) -> (r: bool)
    ensures
        r == trivial_turn(text@),
{
    let n = lower_vec(&trim_vec(&chars_of(text)));
    if n.len() == 0 {
        return true;
    }
    if n.len() <= 12 {
        let mut i: usize = 0;
        let mut all = true;
        while i < n.len()
            invariant
                i <= n@.len(),
                all == forall|j: int| 0 <= j < i ==> #[trigger] short_reply_char(n@[j]),
            decreases n@.len() - i,
        {
            if !short_reply_char_exec(n[i]) {
                all = false;
            }
            i = i + 1;
        }
        if all {
            return true;
        }
    }
    let prefixes = vec![
        chars_of("hi"), chars_of("hello"), chars_of("hey"), chars_of("hola"), chars_of("buenas"),
        chars_of("good morning"), chars_of("good afternoon"), chars_of("good evening"),
        chars_of("how can i help"), chars_of("how may i help"), chars_of("what can i help"),
        chars_of("what do you want to set up today"),
    ];
    assert(crate::text::views(prefixes@) =~= trivial_prefixes());
    let mut k: usize = 0;
    while k < prefixes.len()
        invariant
            k <= prefixes@.len(),
            n@ == lower_seq(trim(text@)),
            crate::text::views(prefixes@) == trivial_prefixes(),
            forall|j: int| 0 <= j < k ==> !(#[trigger] trivial_prefixes()[j]).is_prefix_of(n@),
        decreases prefixes@.len() - k,
    {
        assert(trivial_prefixes()[k as int] == prefixes@[k as int]@);
        if starts_with(&n, &prefixes[k]) {
            assert(trivial_prefixes()[k as int].is_prefix_of(n@));
            return true;
        }
        k = k + 1;
    }
    false
}

pub open spec fn turn_view(t: RawMemoryTurn) -> (Seq<char>, Seq<char>, Seq<char>) {
    (t.role@, t.source@, t.content@)
}

/// A turn that is the result of a read-only tool.
pub open spec fn readonly_result(role: Seq<char>, source: Seq<char>) -> bool {
    role == "tool_result"@ && match strip_prefix_spec(source, "tool:"@) {
        Some(tool) => readonly_tool(tool),
        None => false,
    }
}

/// The turns worth distilling: those that are not trivial, in order.
pub open spec fn meaningful(turns: Seq<(Seq<char>, Seq<char>, Seq<char>)>) -> Seq<(Seq<char>, Seq<char>, Seq<char>)> {
    turns.filter(|t: (Seq<char>, Seq<char>, Seq<char>)| !trivial_turn(t.2))
}

/// One turn as the model reads it: `[role] (source): content`, then a blank line.
pub open spec fn turn_block(t: (Seq<char>, Seq<char>, Seq<char>)) -> Seq<char> {
    "["@ + t.0 + "] ("@ + t.1 + "): "@ + t.2 + "\n\n"@
}

pub open spec fn input_block(turns: Seq<(Seq<char>, Seq<char>, Seq<char>)>) -> Seq<char>
    decreases turns.len(),
{
    if turns.len() == 0 {
        Seq::empty()
    } else {
        input_block(turns.drop_last()) + turn_block(turns.last())
    }
}

/// The text handed to the model, or `None` where there is nothing to
/// distill: no turn is meaningful, or every meaningful turn is the result
/// of a read-only tool.
pub open spec fn distillation_input(turns: Seq<(Seq<char>, Seq<char>, Seq<char>)>) -> Option<Seq<char>> {
    let m = meaningful(turns);
    if m.len() == 0 {
        None
    } else if forall|i: int| 0 <= i < m.len() ==> #[trigger] readonly_result(m[i].0, m[i].1) {
        None
    } else {
        Some(input_block(m))
    }
}

pub open spec fn turn_views(s: Seq<RawMemoryTurn>) -> Seq<(Seq<char>, Seq<char>, Seq<char>)> {
    s.map_values(|t: RawMemoryTurn| turn_view(t))
}

fn is_readonly_result(role: &str, source: &str) -> (r: bool)
    ensures
        r == readonly_result(role@, source@),
{
    if !str_eq(role, "tool_result") {
        return false;
    }
    match strip_prefix(source, "tool:") {
        Some(tool) => is_readonly_tool(tool.as_str()),
        None => false,
    }
}

pub fn prepare_distillation(turns: &Vec<RawMemoryTurn>) -> (r: Option<String>)
    ensures
        match distillation_input(turn_views(turns@)) {
            Some(s) => r matches Some(x) && x@ == s,
            None => r is None,
        },
{
    let ghost tv = turn_views(turns@);
    let mut kept: Vec<usize> = Vec::new();
    let mut i: usize = 0;
    while i < turns.len()
        invariant
            i <= turns@.len(),
            tv == turn_views(turns@),
            kept@.len() == meaningful(tv.take(i as int)).len(),
            forall|j: int| 0 <= j < kept@.len() ==> (#[trigger] kept@[j]) < i && tv[kept@[j] as int] == meaningful(tv.take(i as int))[j],
        decreases turns@.len() - i,
    {
        let ghost pre = tv.take(i + 1);
        assert(pre.drop_last() =~= tv.take(i as int));
        assert(pre.last() == tv[i as int]);
        proof {
            reveal(Seq::filter);
            assert(meaningful(pre) == {
                let f = meaningful(tv.take(i as int));
                if !trivial_turn(tv[i as int].2) { f.push(tv[i as int]) } else { f }
            });
        }
        if !is_trivial_conversation_turn(turns[i].content.as_str()) {
            kept.push(i);
        }
        i = i + 1;
    }
    assert(tv.take(i as int) =~= tv);
    let ghost m = meaningful(tv);
    if kept.len() == 0 {
        return None;
    }
    let mut all_readonly = true;
    let mut k: usize = 0;
    while k < kept.len()
        invariant
            k <= kept@.len(),
            m == meaningful(tv),
            tv == turn_views(turns@),
            kept@.len() == m.len(),
            forall|j: int| 0 <= j < kept@.len() ==> (#[trigger] kept@[j]) < turns@.len() && tv[kept@[j] as int] == m[j],
            all_readonly == forall|j: int| 0 <= j < k ==> #[trigger] readonly_result(m[j].0, m[j].1),
        decreases kept@.len() - k,
    {
        let t = &turns[kept[k]];
        assert(tv[kept@[k as int] as int] == turn_view(turns@[kept@[k as int] as int]));
        assert(m[k as int].0 == t.role@ && m[k as int].1 == t.source@);
        let ro = is_readonly_result(t.role.as_str(), t.source.as_str());
        assert(ro == readonly_result(m[k as int].0, m[k as int].1));
        if !ro {
            all_readonly = false;
        }
        k = k + 1;
    }
    if all_readonly {
        return None;
    }
    let mut out: Vec<char> = Vec::new();
    let mut k: usize = 0;
    while k < kept.len()
        invariant
            k <= kept@.len(),
            m == meaningful(tv),
            tv == turn_views(turns@),
            kept@.len() == m.len(),
            forall|j: int| 0 <= j < kept@.len() ==> (#[trigger] kept@[j]) < turns@.len() && tv[kept@[j] as int] == m[j],
            out@ == input_block(m.take(k as int)),
        decreases kept@.len() - k,
    {
        let t = &turns[kept[k]];
        assert(tv[kept@[k as int] as int] == turn_view(turns@[kept@[k as int] as int]));
        assert(m.take(k + 1).drop_last() =~= m.take(k as int));
        assert(m.take(k + 1).last() == m[k as int]);
        push_all(&mut out, &chars_of("["));
        push_all(&mut out, &chars_of(t.role.as_str()));
        push_all(&mut out, &chars_of("] ("));
        push_all(&mut out, &chars_of(t.source.as_str()));
        push_all(&mut out, &chars_of("): "));
        push_all(&mut out, &chars_of(t.content.as_str()));
        push_all(&mut out, &chars_of("\n\n"));
        assert(out@ =~= input_block(m.take(k as int)) + turn_block(m[k as int]));
        k = k + 1;
    }
    assert(m.take(k as int) =~= m);
    Some(string_of(out.as_slice()))
}

} // verus!
