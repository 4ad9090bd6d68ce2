//! The source text of a decompiled script, as a cast export writes it: the
//! property and global declarations, then each handler as `on name args`,
//! its globals and its decompiled lines, and `end`. A JavaScript script is
//! its decompiled program, with its declarations as comments.
use vstd::prelude::*;
use vstd::string::*;
use crate::text::{join_strings, nat_to_decimal, push_decimal, seq_join, views_of};

verus! {

/// A handler as the decompiler gives it: its name (as interned, in lower
/// case) and the id of its name in the name table; the name ids of its
/// arguments and of the globals it declares; the name ids its global get
/// and set instructions use, in order; and its decompiled lines with their
/// indent.
pub struct HandlerText {
    pub symbol: String,
    pub name_id: u16,
    pub argument_name_ids: Vec<u16>,
    pub global_name_ids: Vec<u16>,
    pub global_op_ids: Vec<u16>,
    pub lines: Vec<(u32, String)>,
}

/// What a script's text is made from: the cast's name table, the name ids
/// of the script's properties and globals, the lines of its decompiled
/// JavaScript program with their indents, where it is a JavaScript script
/// that decompiles, and its handlers in order.
pub struct ScriptText {
    pub names: Vec<String>,
    pub property_name_ids: Vec<u16>,
    pub global_name_ids: Vec<u16>,
    pub js_source: Option<Vec<(u32, String)>>,
    pub handlers: Vec<HandlerText>,
}

/// The names of the ids that the name table has, in order; an id past its
/// end names nothing.
pub open spec fn resolve_names(names: Seq<Seq<char>>, ids: Seq<u16>) -> Seq<Seq<char>>
    decreases ids.len(),
{
    if ids.len() == 0 {
        Seq::empty()
    } else {
        let rest = resolve_names(names, ids.drop_last());
        if (ids.last() as int) < names.len() {
            rest.push(names[ids.last() as int])
        } else {
            rest
        }
    }
}

/// Each id once, where it first occurs.
pub open spec fn first_seen(ids: Seq<u16>) -> Seq<u16>
    decreases ids.len(),
{
    if ids.len() == 0 {
        Seq::empty()
    } else if ids.drop_last().contains(ids.last()) {
        first_seen(ids.drop_last())
    } else {
        first_seen(ids.drop_last()).push(ids.last())
    }
}

/// An argument's name: its name in the table, else `arg` and its id.
pub open spec fn arg_name(names: Seq<Seq<char>>, id: u16) -> Seq<char> {
    if (id as int) < names.len() {
        names[id as int]
    } else {
        "arg"@ + nat_to_decimal(id as nat)
    }
}

pub open spec fn arg_names(names: Seq<Seq<char>>, ids: Seq<u16>) -> Seq<Seq<char>> {
    Seq::new(ids.len(), |i: int| arg_name(names, ids[i]))
}

/// `n` indents of two spaces.
pub open spec fn indent(n: nat) -> Seq<char>
    decreases n,
{
    if n == 0 {
        Seq::empty()
    } else {
        indent((n - 1) as nat) + "  "@
    }
}

/// The globals a handler declares in its own text: those it recorded, by
/// name; where it recorded none, those its instructions use, unless the
/// script declares globals itself.
pub open spec fn handler_globals(names: Seq<Seq<char>>, script_has_globals: bool, h: HandlerText) -> Seq<Seq<char>> {
    let inferred = h.global_name_ids@.len() == 0;
    let ids = if inferred {
        first_seen(h.global_op_ids@)
    } else {
        h.global_name_ids@
    };
    let found = resolve_names(names, ids);
    if found.len() == 0 || (inferred && script_has_globals) {
        Seq::empty()
    } else {
        seq!["  global "@ + seq_join(found, ", "@)]
    }
}

/// A decompiled line, indented one step more than the decompiler says.
pub open spec fn line_text(line: (u32, String)) -> Seq<char> {
    indent((line.0 + 1) as nat) + line.1@
}

/// A handler's text: `on`, its name (from the name table, else as
/// interned), its arguments after a space where there are any, then its
/// globals line and its lines, and `end`, one per line.
pub open spec fn handler_text(names: Seq<Seq<char>>, script_has_globals: bool, h: HandlerText) -> Seq<char> {
    let lines = handler_globals(names, script_has_globals, h) + Seq::new(
        h.lines@.len(),
        |i: int| line_text(h.lines@[i]),
    );
    let name = if (h.name_id as int) < names.len() {
        names[h.name_id as int]
    } else {
        h.symbol@
    };
    let args = seq_join(arg_names(names, h.argument_name_ids@), ", "@);
    let head = if args.len() == 0 {
        "on "@ + name
    } else {
        "on "@ + name + " "@ + args
    };
    head + "\n"@ + seq_join(lines, "\n"@) + "\nend"@
}

/// A JavaScript program's text: each line indented by its indent and
/// ended with a newline.
pub open spec fn js_text(lines: Seq<(u32, String)>) -> Seq<char>
    decreases lines.len(),
{
    if lines.len() == 0 {
        Seq::empty()
    } else {
        js_text(lines.drop_last()) + indent(lines.last().0 as nat) + lines.last().1@ + "\n"@
    }
}

/// The declarations: `property` and the properties, then `global` and the
/// globals, each line where there are any, with the given prefix.
pub open spec fn declarations(prefix: Seq<char>, props: Seq<Seq<char>>, globals: Seq<Seq<char>>) -> Seq<char> {
    (if props.len() > 0 {
        prefix + "property "@ + seq_join(props, ", "@) + "\n"@
    } else {
        Seq::empty()
    }) + (if globals.len() > 0 {
        prefix + "global "@ + seq_join(globals, ", "@) + "\n"@
    } else {
        Seq::empty()
    })
}

/// A script's text, empty without a name table: for a JavaScript program,
/// its declarations as comments and the program; else the declarations and
/// a blank line where there are any, then the handlers' texts, a blank line
/// between two, and a final newline where there are any.
pub open spec fn script_text(s: Option<ScriptText>) -> Seq<char> {
    match s {
        None => Seq::empty(),
        Some(st) => {
            let names = views_of(st.names@);
            let props = resolve_names(names, st.property_name_ids@);
            let globals = resolve_names(names, st.global_name_ids@);
            match st.js_source {
                Some(js) => declarations("// "@, props, globals) + js_text(js@),
                None => {
                    let decl = declarations(Seq::empty(), props, globals);
                    let handlers = Seq::new(
                        st.handlers@.len(),
                        |i: int| handler_text(names, globals.len() > 0, st.handlers@[i]),
                    );
                    (if decl.len() > 0 {
                        decl + "\n"@
                    } else {
                        Seq::empty()
                    }) + (if handlers.len() > 0 {
                        seq_join(handlers, "\n\n"@) + "\n"@
                    } else {
                        Seq::empty()
                    })
                },
            }
        },
    }
}

fn resolve_names_exec(names: &Vec<String>, ids: &Vec<u16>) -> (r: Vec<String>)
    ensures
        views_of(r@) == resolve_names(views_of(names@), ids@),
{
    let mut r: Vec<String> = Vec::new();
    let mut i: usize = 0;
    while i < ids.len()
        invariant
            i <= ids.len(),
            views_of(r@) == resolve_names(views_of(names@), ids@.take(i as int)),
        decreases ids.len() - i,
    {
        proof {
            assert(ids@.take(i + 1).drop_last() =~= ids@.take(i as int));
        }
        let id = ids[i];
        if (id as usize) < names.len() {
            r.push(names[id as usize].clone());
            assert(views_of(r@) =~= resolve_names(views_of(names@), ids@.take(i as int)).push(
                names@[id as int]@,
            ));
        }
        i = i + 1;
    }
    assert(ids@.take(ids.len() as int) =~= ids@);
    r
}

fn contains_id(ids: &Vec<u16>, id: u16) -> (r: bool)
    ensures
        r == ids@.contains(id),
{
    let mut i: usize = 0;
    while i < ids.len()
        invariant
            i <= ids.len(),
            forall|j: int| 0 <= j < i ==> ids@[j] != id,
        decreases ids.len() - i,
    {
        if ids[i] == id {
            return true;
        }
        i = i + 1;
    }
    false
}

proof fn lemma_first_seen_contains(ids: Seq<u16>, x: u16)
    ensures
        first_seen(ids).contains(x) <==> ids.contains(x),
    decreases ids.len(),
{
    if ids.len() > 0 {
        let rest = ids.drop_last();
        lemma_first_seen_contains(rest, x);
        lemma_first_seen_contains(rest, ids.last());
        if ids.contains(x) && x != ids.last() {
            let j = choose|j: int| 0 <= j < ids.len() && #[trigger] ids[j] == x;
            assert(rest[j] == x);
        }
        if rest.contains(x) {
            let j = choose|j: int| 0 <= j < rest.len() && #[trigger] rest[j] == x;
            assert(ids[j] == x);
        }
        if x == ids.last() {
            assert(ids[ids.len() - 1] == x);
        }
        let fr = first_seen(rest);
        if !rest.contains(ids.last()) {
            if fr.push(ids.last()).contains(x) && x != ids.last() {
                let j = choose|j: int| 0 <= j < fr.push(ids.last()).len() && #[trigger] fr.push(ids.last())[j] == x;
                assert(fr[j] == x);
            }
            if fr.contains(x) {
                let j = choose|j: int| 0 <= j < fr.len() && #[trigger] fr[j] == x;
                assert(fr.push(ids.last())[j] == x);
            }
            if x == ids.last() {
                assert(fr.push(ids.last())[fr.len() as int] == x);
            }
        }
    }
}

fn first_seen_exec(ids: &Vec<u16>) -> (r: Vec<u16>)
    ensures
        r@ == first_seen(ids@),
{
    let mut r: Vec<u16> = Vec::new();
    let mut i: usize = 0;
    while i < ids.len()
        invariant
            i <= ids.len(),
            r@ == first_seen(ids@.take(i as int)),
        decreases ids.len() - i,
    {
        proof {
            assert(ids@.take(i + 1).drop_last() =~= ids@.take(i as int));
            assert(ids@.take(i + 1).last() == ids@[i as int]);
            lemma_first_seen_contains(ids@.take(i as int), ids@[i as int]);
        }
        let id = ids[i];
        if !contains_id(&r, id) {
            r.push(id);
        }
        i = i + 1;
    }
    assert(ids@.take(ids.len() as int) =~= ids@);
    r
}

fn arg_name_exec(names: &Vec<String>, id: u16) -> (r: String)
    ensures
        r@ == arg_name(views_of(names@), id),
{
    if (id as usize) < names.len() {
        names[id as usize].clone()
    } else {
        let mut s = String::from_str("arg");
        push_decimal(&mut s, id as u64);
        s
    }
}

fn indent_exec(n: u32) -> (r: String)
    ensures
        r@ == indent(n as nat),
{
    let mut r = String::new();
    let mut i: u32 = 0;
    while i < n
        invariant
            i <= n,
            r@ == indent(i as nat),
        decreases n - i,
    {
        r.append("  ");
        i = i + 1;
    }
    r
}

/// Whether every line's indent is below the largest 32-bit number.
pub open spec fn indents_fit(h: HandlerText) -> bool {
    forall|j: int| 0 <= j < h.lines@.len() ==> (#[trigger] h.lines@[j]).0 < u32::MAX
}

fn handler_text_exec(names: &Vec<String>, script_has_globals: bool, h: &HandlerText) -> (r: String)
    requires
        indents_fit(*h),
    ensures
        r@ == handler_text(views_of(names@), script_has_globals, *h),
{
    let ghost nv = views_of(names@);
    let inferred = h.global_name_ids.len() == 0;
    let found = if inferred {
        let ids = first_seen_exec(&h.global_op_ids);
        resolve_names_exec(names, &ids)
    } else {
        resolve_names_exec(names, &h.global_name_ids)
    };
    let mut lines: Vec<String> = Vec::new();
    if !(found.len() == 0 || (inferred && script_has_globals)) {
        let mut g = String::from_str("  global ");
        let joined = join_strings(&found, ", ");
        g.append(joined.as_str());
        lines.push(g);
    }
    let ghost globals = handler_globals(nv, script_has_globals, *h);
    assert(views_of(lines@) =~= globals);
    let start: usize = lines.len();
    let mut i: usize = 0;
    while i < h.lines.len()
        invariant
            i <= h.lines.len(),
            start == globals.len(),
            views_of(lines@) =~= globals + Seq::new(i as nat, |j: int| line_text(h.lines@[j])),
            indents_fit(*h),
        decreases h.lines.len() - i,
    {
        assert(h.lines@[i as int].0 < u32::MAX);
        let mut t = indent_exec(h.lines[i].0 + 1);
        t.append(h.lines[i].1.as_str());
        assert(t@ == line_text(h.lines@[i as int]));
        let ghost before = lines@;
        lines.push(t);
        assert(views_of(lines@) =~= views_of(before).push(line_text(h.lines@[i as int])));
        i = i + 1;
    }
    let mut args_v: Vec<String> = Vec::new();
    let mut k: usize = 0;
    while k < h.argument_name_ids.len()
        invariant
            k <= h.argument_name_ids.len(),
            views_of(args_v@) =~= Seq::new(k as nat, |j: int| arg_name(nv, h.argument_name_ids@[j])),
            nv == views_of(names@),
        decreases h.argument_name_ids.len() - k,
    {
        let a = arg_name_exec(names, h.argument_name_ids[k]);
        let ghost before = args_v@;
        args_v.push(a);
        assert(views_of(args_v@) =~= views_of(before).push(arg_name(nv, h.argument_name_ids@[k as int])));
        k = k + 1;
    }
    let args = join_strings(&args_v, ", ");
    let mut out = String::from_str("on ");
    if (h.name_id as usize) < names.len() {
        out.append(names[h.name_id as usize].as_str());
    } else {
        out.append(h.symbol.as_str());
    }
    if args.unicode_len() > 0 {
        out.append(" ");
        out.append(args.as_str());
    }
    out.append("\n");
    let body = join_strings(&lines, "\n");
    out.append(body.as_str());
    out.append("\nend");
    out
}

/// Writes the text of a decompiled script; see `script_text`.
pub fn decompile_script(script: &Option<ScriptText>) -> (r: String)
    requires
        match *script {
            Some(st) => forall|i: int| 0 <= i < st.handlers@.len() ==> indents_fit(#[trigger] st.handlers@[i]),
            None => true,
        },
    ensures
        r@ == script_text(*script),
{
    let st = match script {
        Some(st) => st,
        None => {
            return String::new();
        },
    };
    let ghost nv = views_of(st.names@);
    let props = resolve_names_exec(&st.names, &st.property_name_ids);
    let globals = resolve_names_exec(&st.names, &st.global_name_ids);
    let mut decl = String::new();
    let prefix: &str = if st.js_source.is_some() { "// " } else { "" };
    if props.len() > 0 {
        decl.append(prefix);
        decl.append("property ");
        let joined = join_strings(&props, ", ");
        decl.append(joined.as_str());
        decl.append("\n");
    }
    if globals.len() > 0 {
        decl.append(prefix);
        decl.append("global ");
        let joined = join_strings(&globals, ", ");
        decl.append(joined.as_str());
        decl.append("\n");
    }
    if let Some(js) = &st.js_source {
        proof {
            reveal_strlit("// ");
        }
        let mut i: usize = 0;
        let ghost start = decl@;
        while i < js.len()
            invariant
                i <= js.len(),
                decl@ == start + js_text(js@.take(i as int)),
            decreases js.len() - i,
        {
            proof {
                assert(js@.take(i + 1).drop_last() =~= js@.take(i as int));
            }
            let ind = indent_exec(js[i].0);
            decl.append(ind.as_str());
            decl.append(js[i].1.as_str());
            decl.append("\n");
            assert(decl@ =~= start + js_text(js@.take(i + 1)));
            i = i + 1;
        }
        assert(js@.take(js.len() as int) =~= js@);
        return decl;
    }
    proof {
        reveal_strlit("");
    }
    assert(decl@ =~= declarations(Seq::empty(), views_of(props@), views_of(globals@)));
    let mut texts: Vec<String> = Vec::new();
    let mut i: usize = 0;
    while i < st.handlers.len()
        invariant
            i <= st.handlers.len(),
            nv == views_of(st.names@),
            forall|j: int| 0 <= j < st.handlers@.len() ==> indents_fit(#[trigger] st.handlers@[j]),
            views_of(texts@) =~= Seq::new(
                i as nat,
                |j: int| handler_text(nv, views_of(globals@).len() > 0, st.handlers@[j]),
            ),
        decreases st.handlers.len() - i,
    {
        let t = handler_text_exec(&st.names, globals.len() > 0, &st.handlers[i]);
        let ghost before = texts@;
        texts.push(t);
        assert(views_of(texts@) =~= views_of(before).push(
            handler_text(nv, views_of(globals@).len() > 0, st.handlers@[i as int]),
        ));
        i = i + 1;
    }
    let mut out = String::new();
    if decl.unicode_len() > 0 {
        out.append(decl.as_str());
        out.append("\n");
    }
    if texts.len() > 0 {
        let joined = join_strings(&texts, "\n\n");
        out.append(joined.as_str());
        out.append("\n");
    }
    out
}


/// A script's text, where it has any, ends with a newline.
pub proof fn lemma_script_text_ends_with_newline(s: Option<ScriptText>)
    ensures
        script_text(s).len() > 0 ==> script_text(s).last() == '\n',
{
    reveal_strlit("\n");
    if let Some(st) = s {
        let names = views_of(st.names@);
        let props = resolve_names(names, st.property_name_ids@);
        let globals = resolve_names(names, st.global_name_ids@);
        match st.js_source {
            Some(js) => {
                lemma_declarations_end("// "@, props, globals);
                if js@.len() > 0 {
                    let t = js_text(js@);
                    assert(t.last() == '\n');
                    assert((declarations("// "@, props, globals) + t).last() == t.last());
                } else {
                    assert(js_text(js@) =~= Seq::<char>::empty());
                    assert(declarations("// "@, props, globals) + js_text(js@) =~= declarations("// "@, props, globals));
                }
            },
            None => {},
        }
    }
}

proof fn lemma_declarations_end(prefix: Seq<char>, props: Seq<Seq<char>>, globals: Seq<Seq<char>>)
    ensures
        declarations(prefix, props, globals).len() > 0 ==> declarations(prefix, props, globals).last() == '\n',
{
    reveal_strlit("\n");
}

} // verus!
