//! What holds between writing a descriptor and reading it back.

use vstd::prelude::*;
use crate::model::{distinct_indices, tag_of, type_of_tag, FunctionModel, ModuleModel};
use crate::descriptor::{
    describable, descriptor_bytes, function_bytes, function_fits, functions_bytes, module_bytes,
    module_fits, modules_bytes, modules_distinct, modules_fit, parse_descriptor, parse_function,
    parse_functions, parse_module, parse_modules, return_tag, tags_known, tags_of_types,
    types_of_tags, ParseError, FORMAT_VERSION,
};

verus! {

/// Where `a + b` lies in `s` from `pos`, `a` lies from `pos` and `b`
/// right behind it.
proof fn lemma_split(s: Seq<u8>, pos: int, a: Seq<u8>, b: Seq<u8>)
    requires
        0 <= pos,
        pos + a.len() + b.len() <= s.len(),
        s.subrange(pos, pos + a.len() + b.len()) == a + b,
    ensures
        s.subrange(pos, pos + a.len()) == a,
        s.subrange(pos + a.len(), pos + a.len() + b.len()) == b,
{
    let w = s.subrange(pos, pos + a.len() + b.len());
    assert forall|i: int| 0 <= i < a.len() implies s.subrange(pos, pos + a.len())[i] == a[i] by {
        assert(w[i] == (a + b)[i]);
    }
    assert(s.subrange(pos, pos + a.len()) =~= a);
    assert forall|i: int| 0 <= i < b.len() implies s.subrange(
        pos + a.len(),
        pos + a.len() + b.len(),
    )[i] == b[i] by {
        assert(w[a.len() + i] == (a + b)[a.len() + i]);
    }
    assert(s.subrange(pos + a.len(), pos + a.len() + b.len()) =~= b);
}

/// A tag read back gives the shape it was written for.
proof fn lemma_tags_round_trip(types: Seq<crate::model::ArgumentType>)
    ensures
        tags_known(tags_of_types(types)),
        types_of_tags(tags_of_types(types)) == types,
{
    assert forall|i: int| 0 <= i < types.len() implies type_of_tag(
        #[trigger] tags_of_types(types)[i],
    ) == Some(types[i]) by {
        assert(tags_of_types(types)[i] == tag_of(types[i]));
    }
    assert(types_of_tags(tags_of_types(types)) =~= types);
}

/// A function's record, wherever it lies, is read back as that function.
proof fn lemma_function_at(s: Seq<u8>, pos: int, f: FunctionModel)
    requires
        function_fits(f),
        0 <= pos,
        pos + function_bytes(f).len() <= s.len(),
        s.subrange(pos, pos + function_bytes(f).len()) == function_bytes(f),
    ensures
        function_bytes(f).len() == 4 + f.name.len() + f.args.len(),
        parse_function(s, pos) == Ok::<_, ParseError>((f, pos + function_bytes(f).len())),
{
    let e = function_bytes(f);
    let nl = f.name.len() as int;
    let ac = f.args.len() as int;
    let tags = tags_of_types(f.args);
    assert(e.len() == 4 + nl + ac);
    let w = s.subrange(pos, pos + e.len());
    assert(s[pos] == w[0]);
    assert(e[0] == nl as u8);
    assert(s[pos + 1 + nl] == w[1 + nl]);
    assert(e[1 + nl] == f.index);
    assert(s[pos + 2 + nl] == w[2 + nl]);
    assert(e[2 + nl] == ac as u8);
    assert(s[pos + 3 + nl + ac] == w[3 + nl + ac]);
    assert(e[3 + nl + ac] == return_tag(f.ret));
    assert forall|i: int| 0 <= i < nl implies s.subrange(pos + 1, pos + 1 + nl)[i] == f.name[i] by {
        assert(w[1 + i] == e[1 + i]);
    }
    assert(s.subrange(pos + 1, pos + 1 + nl) =~= f.name);
    assert forall|i: int| 0 <= i < ac implies s.subrange(pos + 3 + nl, pos + 3 + nl + ac)[i]
        == tags[i] by {
        assert(w[3 + nl + i] == e[3 + nl + i]);
    }
    assert(s.subrange(pos + 3 + nl, pos + 3 + nl + ac) =~= tags);
    lemma_tags_round_trip(f.args);
    assert(type_of_tag(return_tag(f.ret)) == f.ret);
}

/// Reading a function record needs every byte of it and no byte behind
/// it.
proof fn lemma_function_prefix(s: Seq<u8>, pos: int, k: int)
    requires
        0 <= pos,
        0 <= k <= s.len(),
        parse_function(s, pos) is Ok,
    ensures
        pos < parse_function(s, pos).unwrap().1 <= s.len(),
        k >= parse_function(s, pos).unwrap().1 ==> parse_function(s.take(k), pos)
            == parse_function(s, pos),
        k < parse_function(s, pos).unwrap().1 ==> parse_function(s.take(k), pos) == Err::<
            (FunctionModel, int),
            _,
        >(ParseError::Truncated),
{
    let t = s.take(k);
    let end = parse_function(s, pos).unwrap().1;
    let nl = s[pos] as int;
    if k >= end {
        assert(t[pos] == s[pos]);
        assert(t[pos + 1 + nl] == s[pos + 1 + nl]);
        assert(t[pos + 2 + nl] == s[pos + 2 + nl]);
        assert(t[end - 1] == s[end - 1]);
        assert(t.subrange(pos + 1, pos + 1 + nl) =~= s.subrange(pos + 1, pos + 1 + nl));
        assert(t.subrange(pos + 3 + nl, end - 1) =~= s.subrange(pos + 3 + nl, end - 1));
    } else if pos + 1 <= k {
        assert(t[pos] == s[pos]);
        if pos + 3 + nl <= k {
            assert(t[pos + 2 + nl] == s[pos + 2 + nl]);
        }
    }
}

/// Reading a run of function records needs every byte of it and no byte
/// behind it.
proof fn lemma_functions_prefix(s: Seq<u8>, pos: int, n: nat, acc: Seq<FunctionModel>, k: int)
    requires
        0 <= pos <= k <= s.len(),
        parse_functions(s, pos, n, acc) is Ok,
    ensures
        pos <= parse_functions(s, pos, n, acc).unwrap().1 <= s.len(),
        k >= parse_functions(s, pos, n, acc).unwrap().1 ==> parse_functions(s.take(k), pos, n, acc)
            == parse_functions(s, pos, n, acc),
        k < parse_functions(s, pos, n, acc).unwrap().1 ==> parse_functions(s.take(k), pos, n, acc)
            == Err::<(Seq<FunctionModel>, int), _>(ParseError::Truncated),
    decreases n,
{
    if n > 0 {
        lemma_function_prefix(s, pos, k);
        let (f, next) = parse_function(s, pos).unwrap();
        if k >= next {
            lemma_functions_prefix(s, next, (n - 1) as nat, acc.push(f), k);
        } else {
            lemma_functions_prefix(s, next, (n - 1) as nat, acc.push(f), next);
        }
    }
}

/// Reading a module record needs every byte of it and no byte behind it.
proof fn lemma_module_prefix(s: Seq<u8>, pos: int, k: int)
    requires
        0 <= pos <= k <= s.len(),
        parse_module(s, pos) is Ok,
    ensures
        pos < parse_module(s, pos).unwrap().1 <= s.len(),
        k >= parse_module(s, pos).unwrap().1 ==> parse_module(s.take(k), pos) == parse_module(
            s,
            pos,
        ),
        k < parse_module(s, pos).unwrap().1 ==> parse_module(s.take(k), pos) == Err::<
            (ModuleModel, int),
            _,
        >(ParseError::Truncated),
{
    let t = s.take(k);
    let nl = s[pos] as int;
    let start = pos + 2 + nl;
    let n = s[pos + 1 + nl] as nat;
    if pos + 1 <= k {
        assert(t[pos] == s[pos]);
        if start <= k {
            assert(t[pos + 1 + nl] == s[pos + 1 + nl]);
            lemma_functions_prefix(s, start, n, Seq::empty(), k);
            assert(t.subrange(pos + 1, pos + 1 + nl) =~= s.subrange(pos + 1, pos + 1 + nl));
        } else {
            lemma_functions_prefix(s, start, n, Seq::empty(), start);
        }
    } else {
        lemma_functions_prefix(s, start, n, Seq::empty(), start);
    }
}

/// Reading a run of module records needs every byte of it and no byte
/// behind it.
proof fn lemma_modules_prefix(s: Seq<u8>, pos: int, n: nat, acc: Seq<ModuleModel>, k: int)
    requires
        0 <= pos <= k <= s.len(),
        parse_modules(s, pos, n, acc) is Ok,
    ensures
        pos <= parse_modules(s, pos, n, acc).unwrap().1 <= s.len(),
        k >= parse_modules(s, pos, n, acc).unwrap().1 ==> parse_modules(s.take(k), pos, n, acc)
            == parse_modules(s, pos, n, acc),
        k < parse_modules(s, pos, n, acc).unwrap().1 ==> parse_modules(s.take(k), pos, n, acc)
            == Err::<(Seq<ModuleModel>, int), _>(ParseError::Truncated),
    decreases n,
{
    if n > 0 {
        lemma_module_prefix(s, pos, k);
        let (m, next) = parse_module(s, pos).unwrap();
        if k >= next {
            lemma_modules_prefix(s, next, (n - 1) as nat, acc.push(m), k);
        } else {
            lemma_modules_prefix(s, next, (n - 1) as nat, acc.push(m), next);
        }
    }
}

/// The records of a run of functions start with the record of the first.
proof fn lemma_functions_bytes_front(fs: Seq<FunctionModel>)
    requires
        fs.len() > 0,
    ensures
        functions_bytes(fs) == function_bytes(fs[0]) + functions_bytes(fs.skip(1)),
    decreases fs.len(),
{
    if fs.len() == 1 {
        assert(fs.drop_last() =~= Seq::empty());
        assert(fs.skip(1) =~= Seq::empty());
        assert(functions_bytes(fs.drop_last()) =~= Seq::empty());
        assert(functions_bytes(fs) =~= function_bytes(fs[0]) + functions_bytes(fs.skip(1)));
    } else {
        lemma_functions_bytes_front(fs.drop_last());
        assert(fs.skip(1).drop_last() =~= fs.drop_last().skip(1));
        assert(fs.skip(1).last() == fs.last());
        assert(functions_bytes(fs) =~= function_bytes(fs[0]) + functions_bytes(fs.skip(1)));
    }
}

/// The records of a run of modules start with the record of the first.
proof fn lemma_modules_bytes_front(ms: Seq<ModuleModel>)
    requires
        ms.len() > 0,
    ensures
        modules_bytes(ms) == module_bytes(ms[0]) + modules_bytes(ms.skip(1)),
    decreases ms.len(),
{
    if ms.len() == 1 {
        assert(ms.drop_last() =~= Seq::empty());
        assert(ms.skip(1) =~= Seq::empty());
        assert(modules_bytes(ms.drop_last()) =~= Seq::empty());
        assert(modules_bytes(ms) =~= module_bytes(ms[0]) + modules_bytes(ms.skip(1)));
    } else {
        lemma_modules_bytes_front(ms.drop_last());
        assert(ms.skip(1).drop_last() =~= ms.drop_last().skip(1));
        assert(ms.skip(1).last() == ms.last());
        assert(modules_bytes(ms) =~= module_bytes(ms[0]) + modules_bytes(ms.skip(1)));
    }
}

/// The records of a run of functions, wherever they lie, are read back as
/// those functions.
proof fn lemma_functions_at(s: Seq<u8>, pos: int, fs: Seq<FunctionModel>, acc: Seq<FunctionModel>)
    requires
        forall|i: int| 0 <= i < fs.len() ==> function_fits(#[trigger] fs[i]),
        0 <= pos,
        pos + functions_bytes(fs).len() <= s.len(),
        s.subrange(pos, pos + functions_bytes(fs).len()) == functions_bytes(fs),
    ensures
        parse_functions(s, pos, fs.len(), acc) == Ok::<_, ParseError>(
            (acc + fs, pos + functions_bytes(fs).len()),
        ),
    decreases fs.len(),
{
    if fs.len() == 0 {
        assert(acc + fs =~= acc);
    } else {
        let rest = fs.skip(1);
        lemma_functions_bytes_front(fs);
        lemma_split(s, pos, function_bytes(fs[0]), functions_bytes(rest));
        assert(function_fits(fs[0]));
        lemma_function_at(s, pos, fs[0]);
        assert forall|i: int| 0 <= i < rest.len() implies function_fits(#[trigger] rest[i]) by {
            assert(rest[i] == fs[i + 1]);
        }
        lemma_functions_at(s, pos + function_bytes(fs[0]).len(), rest, acc.push(fs[0]));
        assert(acc.push(fs[0]) + rest =~= acc + fs);
    }
}

/// A module's record, wherever it lies, is read back as that module, or
/// refused for an index that occurs twice.
proof fn lemma_module_at(s: Seq<u8>, pos: int, m: ModuleModel)
    requires
        module_fits(m),
        0 <= pos,
        pos + module_bytes(m).len() <= s.len(),
        s.subrange(pos, pos + module_bytes(m).len()) == module_bytes(m),
    ensures
        distinct_indices(m.functions) ==> parse_module(s, pos) == Ok::<_, ParseError>(
            (m, pos + module_bytes(m).len()),
        ),
        !distinct_indices(m.functions) ==> parse_module(s, pos) == Err::<(ModuleModel, int), _>(
            ParseError::DuplicateIndex,
        ),
{
    let e = module_bytes(m);
    let nl = m.name.len() as int;
    let head = seq![m.name.len() as u8] + m.name + seq![m.functions.len() as u8];
    let body = functions_bytes(m.functions);
    assert(e =~= head + body);
    assert(head.len() == 2 + nl);
    lemma_split(s, pos, head, body);
    let w = s.subrange(pos, pos + head.len());
    assert(s[pos] == w[0]);
    assert(head[0] == nl as u8);
    assert(s[pos + 1 + nl] == w[1 + nl]);
    assert(head[1 + nl] == m.functions.len() as u8);
    assert forall|i: int| 0 <= i < nl implies s.subrange(pos + 1, pos + 1 + nl)[i] == m.name[i] by {
        assert(w[1 + i] == head[1 + i]);
    }
    assert(s.subrange(pos + 1, pos + 1 + nl) =~= m.name);
    lemma_functions_at(s, pos + 2 + nl, m.functions, Seq::empty());
    assert(Seq::<FunctionModel>::empty() + m.functions =~= m.functions);
}

/// The records of a run of modules, wherever they lie, are read back as
/// those modules, or refused for an index that occurs twice in one of
/// them.
proof fn lemma_modules_at(s: Seq<u8>, pos: int, ms: Seq<ModuleModel>, acc: Seq<ModuleModel>)
    requires
        forall|i: int| 0 <= i < ms.len() ==> module_fits(#[trigger] ms[i]),
        0 <= pos,
        pos + modules_bytes(ms).len() <= s.len(),
        s.subrange(pos, pos + modules_bytes(ms).len()) == modules_bytes(ms),
    ensures
        modules_distinct(ms) ==> parse_modules(s, pos, ms.len(), acc) == Ok::<_, ParseError>(
            (acc + ms, pos + modules_bytes(ms).len()),
        ),
        !modules_distinct(ms) ==> parse_modules(s, pos, ms.len(), acc) == Err::<
            (Seq<ModuleModel>, int),
            _,
        >(ParseError::DuplicateIndex),
    decreases ms.len(),
{
    if ms.len() == 0 {
        assert(acc + ms =~= acc);
    } else {
        let rest = ms.skip(1);
        lemma_modules_bytes_front(ms);
        lemma_split(s, pos, module_bytes(ms[0]), modules_bytes(rest));
        assert(module_fits(ms[0]));
        lemma_module_at(s, pos, ms[0]);
        assert forall|i: int| 0 <= i < rest.len() implies module_fits(#[trigger] rest[i]) by {
            assert(rest[i] == ms[i + 1]);
        }
        if distinct_indices(ms[0].functions) {
            lemma_modules_at(s, pos + module_bytes(ms[0]).len(), rest, acc.push(ms[0]));
            assert(acc.push(ms[0]) + rest =~= acc + ms);
            if modules_distinct(rest) {
                assert forall|i: int| 0 <= i < ms.len() implies distinct_indices(
                    (#[trigger] ms[i]).functions,
                ) by {
                    if i > 0 {
                        assert(ms[i] == rest[i - 1]);
                    }
                }
            } else {
                let i = choose|i: int|
                    0 <= i < rest.len() && !distinct_indices((#[trigger] rest[i]).functions);
                assert(rest[i] == ms[i + 1]);
            }
        }
    }
}

/// What the whole descriptor of a fitting module list reads back as.
proof fn lemma_descriptor_body(ms: Seq<ModuleModel>)
    requires
        modules_fit(ms),
    ensures
        descriptor_bytes(ms).len() == 2 + modules_bytes(ms).len(),
        descriptor_bytes(ms)[0] == FORMAT_VERSION,
        descriptor_bytes(ms)[1] == ms.len(),
        modules_distinct(ms) ==> parse_modules(descriptor_bytes(ms), 2, ms.len(), Seq::empty())
            == Ok::<_, ParseError>((ms, descriptor_bytes(ms).len() as int)),
        !modules_distinct(ms) ==> parse_modules(descriptor_bytes(ms), 2, ms.len(), Seq::empty())
            == Err::<(Seq<ModuleModel>, int), _>(ParseError::DuplicateIndex),
{
    let s = descriptor_bytes(ms);
    assert(s.subrange(2, 2 + modules_bytes(ms).len() as int) =~= modules_bytes(ms));
    lemma_modules_at(s, 2, ms, Seq::empty());
    assert(Seq::<ModuleModel>::empty() + ms =~= ms);
}

/// A module list that has a descriptor is read back from it unchanged:
/// names, order of functions, indices and shapes.
pub proof fn lemma_round_trip(ms: Seq<ModuleModel>)
    requires
        describable(ms),
    ensures
        parse_descriptor(descriptor_bytes(ms)) == Ok::<_, ParseError>(ms),
{
    lemma_descriptor_body(ms);
}

/// A descriptor cut short at any place before its end is refused as
/// truncated.
pub proof fn lemma_truncation(ms: Seq<ModuleModel>, k: int)
    requires
        describable(ms),
        0 <= k < descriptor_bytes(ms).len(),
    ensures
        parse_descriptor(descriptor_bytes(ms).take(k)) == Err::<Seq<ModuleModel>, _>(
            ParseError::Truncated,
        ),
{
    let s = descriptor_bytes(ms);
    let t = s.take(k);
    lemma_descriptor_body(ms);
    if k >= 1 {
        assert(t[0] == s[0]);
    }
    if k >= 2 {
        assert(t[1] == s[1]);
        lemma_modules_prefix(s, 2, ms.len(), Seq::empty(), k);
    }
}

/// The descriptor of a module list in which some module lists an index
/// twice is refused for it.
pub proof fn lemma_duplicate_index_rejected(ms: Seq<ModuleModel>)
    requires
        modules_fit(ms),
        !modules_distinct(ms),
    ensures
        parse_descriptor(descriptor_bytes(ms)) == Err::<Seq<ModuleModel>, _>(
            ParseError::DuplicateIndex,
        ),
{
    lemma_descriptor_body(ms);
}

/// Bytes behind the last declared module change nothing: a descriptor
/// followed by anything is read back as the descriptor alone.
pub proof fn lemma_trailing_bytes_ignored(ms: Seq<ModuleModel>, tail: Seq<u8>)
    requires
        describable(ms),
    ensures
        parse_descriptor(descriptor_bytes(ms) + tail) == Ok::<_, ParseError>(ms),
{
    let s = descriptor_bytes(ms);
    let t = s + tail;
    lemma_descriptor_body(ms);
    assert(t.subrange(2, 2 + modules_bytes(ms).len() as int) =~= modules_bytes(ms));
    lemma_modules_at(t, 2, ms, Seq::empty());
    assert(Seq::<ModuleModel>::empty() + ms =~= ms);
    assert(t[0] == s[0]);
    assert(t[1] == s[1]);
}

} // verus!
