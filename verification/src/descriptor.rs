//! The binary module descriptor.
//!
//! Layout, every field one byte unless it is a run of bytes:
//!
//! ```text
//! descriptor := version module_count module*
//! module     := name_len name function_count function*
//! function   := name_len name index arg_count arg_tag* return_tag
//! ```
//!
//! `version` is `FORMAT_VERSION`. A tag byte names a shape (see
//! `model::tag_of`); a `return_tag` of zero means the function returns
//! nothing. Bytes after the last declared module are not looked at.

use vstd::prelude::*;
use crate::model::{
    distinct_indices, functions_view, has_duplicate_index, modules_view, tag_of, type_of_tag,
    ArgumentType, FunctionModel, FunctionSignature, Module, ModuleModel,
};

verus! {

/// The version byte that opens every descriptor this parser accepts.
pub const FORMAT_VERSION: u8 = 1;

/// Why a descriptor was refused.
#[derive(Clone, Copy, Debug, PartialEq, Eq, Structural)]
pub enum ParseError {
    /// A field reaches past the end of the buffer.
    Truncated,
    /// Two functions of one module share an index.
    DuplicateIndex,
    /// A tag byte names no known shape.
    UnknownType,
    /// The version byte is not `FORMAT_VERSION`.
    UnsupportedVersion,
}

/// Why a module list has no descriptor.
#[derive(Clone, Copy, Debug, PartialEq, Eq, Structural)]
pub enum DescribeError {
    /// A name, an argument list, a function list or the module list is
    /// longer than 255 entries.
    TooLong,
    /// Two functions of one module share an index.
    DuplicateIndex,
}

// ---------------------------------------------------------------------
// What parsing means
// ---------------------------------------------------------------------

/// Every byte is the tag of a shape.
pub open spec fn tags_known(tags: Seq<u8>) -> bool {
    forall|i: int| 0 <= i < tags.len() ==> type_of_tag(#[trigger] tags[i]).is_some()
}

/// The shapes that a run of known tags stands for.
pub open spec fn types_of_tags(tags: Seq<u8>) -> Seq<ArgumentType> {
    tags.map_values(|t: u8| type_of_tag(t).unwrap())
}

/// The function record that starts at `pos`, and the position after it.
pub open spec fn parse_function(s: Seq<u8>, pos: int) -> Result<(FunctionModel, int), ParseError> {
    if pos + 1 > s.len() {
        Err(ParseError::Truncated)
    } else {
        let nl = s[pos] as int;
        if pos + 3 + nl > s.len() {
            Err(ParseError::Truncated)
        } else {
            let ac = s[pos + 2 + nl] as int;
            let end = pos + 4 + nl + ac;
            if end > s.len() {
                Err(ParseError::Truncated)
            } else {
                let tags = s.subrange(pos + 3 + nl, end - 1);
                let rt = s[end - 1];
                if !tags_known(tags) || (rt != 0 && type_of_tag(rt).is_none()) {
                    Err(ParseError::UnknownType)
                } else {
                    Ok(
                        (
                            FunctionModel {
                                name: s.subrange(pos + 1, pos + 1 + nl),
                                index: s[pos + 1 + nl],
                                args: types_of_tags(tags),
                                ret: type_of_tag(rt),
                            },
                            end,
                        ),
                    )
                }
            }
        }
    }
}

/// `n` function records in a row from `pos`, appended to `acc`.
pub open spec fn parse_functions(s: Seq<u8>, pos: int, n: nat, acc: Seq<FunctionModel>) -> Result<
    (Seq<FunctionModel>, int),
    ParseError,
>
    decreases n,
{
    if n == 0 {
        Ok((acc, pos))
    } else {
        match parse_function(s, pos) {
            Err(e) => Err(e),
            Ok((f, next)) => parse_functions(s, next, (n - 1) as nat, acc.push(f)),
        }
    }
}

/// The module record that starts at `pos`, and the position after it.
/// Indices are compared once all the module's functions have been read.
pub open spec fn parse_module(s: Seq<u8>, pos: int) -> Result<(ModuleModel, int), ParseError> {
    if pos + 1 > s.len() {
        Err(ParseError::Truncated)
    } else {
        let nl = s[pos] as int;
        if pos + 2 + nl > s.len() {
            Err(ParseError::Truncated)
        } else {
            match parse_functions(s, pos + 2 + nl, s[pos + 1 + nl] as nat, Seq::empty()) {
                Err(e) => Err(e),
                Ok((fs, end)) => if distinct_indices(fs) {
                    Ok((ModuleModel { name: s.subrange(pos + 1, pos + 1 + nl), functions: fs }, end))
                } else {
                    Err(ParseError::DuplicateIndex)
                },
            }
        }
    }
}

/// `n` module records in a row from `pos`, appended to `acc`.
pub open spec fn parse_modules(s: Seq<u8>, pos: int, n: nat, acc: Seq<ModuleModel>) -> Result<
    (Seq<ModuleModel>, int),
    ParseError,
>
    decreases n,
{
    if n == 0 {
        Ok((acc, pos))
    } else {
        match parse_module(s, pos) {
            Err(e) => Err(e),
            Ok((m, next)) => parse_modules(s, next, (n - 1) as nat, acc.push(m)),
        }
    }
}

/// The modules that a descriptor holds, or why it holds none.
pub open spec fn parse_descriptor(s: Seq<u8>) -> Result<Seq<ModuleModel>, ParseError> {
    if s.len() < 1 {
        Err(ParseError::Truncated)
    } else if s[0] != FORMAT_VERSION {
        Err(ParseError::UnsupportedVersion)
    } else if s.len() < 2 {
        Err(ParseError::Truncated)
    } else {
        match parse_modules(s, 2, s[1] as nat, Seq::empty()) {
            Err(e) => Err(e),
            Ok((ms, _)) => Ok(ms),
        }
    }
}

// ---------------------------------------------------------------------
// What describing means
// ---------------------------------------------------------------------

/// The tags of a run of shapes.
pub open spec fn tags_of_types(types: Seq<ArgumentType>) -> Seq<u8> {
    types.map_values(|t: ArgumentType| tag_of(t))
}

/// The tag byte in the return position.
pub open spec fn return_tag(ret: Option<ArgumentType>) -> u8 {
    match ret {
        None => 0,
        Some(t) => tag_of(t),
    }
}

/// A function that a record can hold.
pub open spec fn function_fits(f: FunctionModel) -> bool {
    f.name.len() <= 255 && f.args.len() <= 255
}

/// The record of one function.
pub open spec fn function_bytes(f: FunctionModel) -> Seq<u8> {
    seq![f.name.len() as u8] + f.name + seq![f.index, f.args.len() as u8] + tags_of_types(f.args)
        + seq![return_tag(f.ret)]
}

/// The records of a run of functions, one after the other.
pub open spec fn functions_bytes(fs: Seq<FunctionModel>) -> Seq<u8>
    decreases fs.len(),
{
    if fs.len() == 0 {
        Seq::empty()
    } else {
        functions_bytes(fs.drop_last()) + function_bytes(fs.last())
    }
}

/// A module that a record can hold: short enough in every part.
pub open spec fn module_fits(m: ModuleModel) -> bool {
    &&& m.name.len() <= 255
    &&& m.functions.len() <= 255
    &&& forall|i: int| 0 <= i < m.functions.len() ==> function_fits(#[trigger] m.functions[i])
}

/// The record of one module.
pub open spec fn module_bytes(m: ModuleModel) -> Seq<u8> {
    seq![m.name.len() as u8] + m.name + seq![m.functions.len() as u8] + functions_bytes(
        m.functions,
    )
}

/// The records of a run of modules, one after the other.
pub open spec fn modules_bytes(ms: Seq<ModuleModel>) -> Seq<u8>
    decreases ms.len(),
{
    if ms.len() == 0 {
        Seq::empty()
    } else {
        modules_bytes(ms.drop_last()) + module_bytes(ms.last())
    }
}

/// Every module fits its record, and so does their number.
pub open spec fn modules_fit(ms: Seq<ModuleModel>) -> bool {
    &&& ms.len() <= 255
    &&& forall|i: int| 0 <= i < ms.len() ==> module_fits(#[trigger] ms[i])
}

/// No module lists an index twice.
pub open spec fn modules_distinct(ms: Seq<ModuleModel>) -> bool {
    forall|i: int| 0 <= i < ms.len() ==> distinct_indices((#[trigger] ms[i]).functions)
}

/// A module list that has a descriptor.
pub open spec fn describable(ms: Seq<ModuleModel>) -> bool {
    modules_fit(ms) && modules_distinct(ms)
}

/// The descriptor of a module list.
pub open spec fn descriptor_bytes(ms: Seq<ModuleModel>) -> Seq<u8> {
    seq![FORMAT_VERSION, ms.len() as u8] + modules_bytes(ms)
}

// ---------------------------------------------------------------------
// The parser
// ---------------------------------------------------------------------

/// A copy of `bytes[from..to]`.
pub(crate) fn copy_range(bytes: &[u8], from: usize, to: usize) -> (out: Vec<u8>)
    requires
        from <= to <= bytes@.len(),
    ensures
        out@ == bytes@.subrange(from as int, to as int),
{
    let mut out: Vec<u8> = Vec::new();
    let mut i: usize = from;
    while i < to
        invariant
            from <= i <= to <= bytes@.len(),
            out@ == bytes@.subrange(from as int, i as int),
        decreases to - i,
    {
        out.push(bytes[i]);
        i += 1;
        assert(out@ =~= bytes@.subrange(from as int, i as int));
    }
    out
}

/// The shapes named by the tags in `bytes[from..to]`; `None` if one of
/// them names no shape.
fn read_types(bytes: &[u8], from: usize, to: usize) -> (out: Option<Vec<ArgumentType>>)
    requires
        from <= to <= bytes@.len(),
    ensures
        out.is_some() == tags_known(bytes@.subrange(from as int, to as int)),
        out.is_some() ==> out.unwrap()@ == types_of_tags(bytes@.subrange(from as int, to as int)),
{
    let ghost tags = bytes@.subrange(from as int, to as int);
    let mut out: Vec<ArgumentType> = Vec::new();
    let mut i: usize = from;
    while i < to
        invariant
            from <= i <= to <= bytes@.len(),
            tags == bytes@.subrange(from as int, to as int),
            out@.len() == i - from,
            forall|k: int| 0 <= k < i - from ==> type_of_tag(#[trigger] tags[k]) == Some(out@[k]),
        decreases to - i,
    {
        assert(tags[i - from] == bytes@[i as int]);
        match ArgumentType::from_tag(bytes[i]) {
            None => {
                return None;
            },
            Some(t) => {
                out.push(t);
            },
        }
        i += 1;
    }
    assert(out@ =~= types_of_tags(tags));
    Some(out)
}

fn read_function(bytes: &[u8], pos: usize) -> (r: Result<(FunctionSignature, usize), ParseError>)
    requires
        pos <= bytes@.len(),
    ensures
        match r {
            Ok((f, end)) => parse_function(bytes@, pos as int) == Ok::<_, ParseError>(
                (f@, end as int),
            ) && pos < end <= bytes@.len(),
            Err(e) => parse_function(bytes@, pos as int) == Err::<(FunctionModel, int), _>(e),
        },
{
    let len: usize = bytes.len();
    if len - pos < 1 {
        return Err(ParseError::Truncated);
    }
    let nl: usize = bytes[pos] as usize;
    if len - pos < 3 + nl {
        return Err(ParseError::Truncated);
    }
    let index: u8 = bytes[pos + 1 + nl];
    let ac: usize = bytes[pos + 2 + nl] as usize;
    if len - pos < 4 + nl + ac {
        return Err(ParseError::Truncated);
    }
    let end: usize = pos + 4 + nl + ac;
    let args = match read_types(bytes, pos + 3 + nl, end - 1) {
        None => {
            return Err(ParseError::UnknownType);
        },
        Some(args) => args,
    };
    let rt: u8 = bytes[end - 1];
    let ret = ArgumentType::from_tag(rt);
    if rt != 0 && ret.is_none() {
        return Err(ParseError::UnknownType);
    }
    let name = copy_range(bytes, pos + 1, pos + 1 + nl);
    Ok((FunctionSignature { name, index, args, ret }, end))
}

fn read_module(bytes: &[u8], pos: usize) -> (r: Result<(Module, usize), ParseError>)
    requires
        pos <= bytes@.len(),
    ensures
        match r {
            Ok((m, end)) => parse_module(bytes@, pos as int) == Ok::<_, ParseError>(
                (m@, end as int),
            ) && pos < end <= bytes@.len(),
            Err(e) => parse_module(bytes@, pos as int) == Err::<(ModuleModel, int), _>(e),
        },
{
    let len: usize = bytes.len();
    if len - pos < 1 {
        return Err(ParseError::Truncated);
    }
    let nl: usize = bytes[pos] as usize;
    if len - pos < 2 + nl {
        return Err(ParseError::Truncated);
    }
    let count: u8 = bytes[pos + 1 + nl];
    let start: usize = pos + 2 + nl;
    let mut functions: Vec<FunctionSignature> = Vec::new();
    let mut at: usize = start;
    let mut k: u8 = 0;
    assert(functions_view(functions@) =~= Seq::empty());
    while k < count
        invariant
            k <= count,
            nl == bytes@[pos as int],
            start == pos + 2 + nl,
            count == bytes@[pos + 1 + nl],
            start <= at <= bytes@.len(),
            functions@.len() == k,
            parse_functions(bytes@, start as int, count as nat, Seq::empty()) == parse_functions(
                bytes@,
                at as int,
                (count - k) as nat,
                functions_view(functions@),
            ),
        decreases count - k,
    {
        match read_function(bytes, at) {
            Err(e) => {
                return Err(e);
            },
            Ok((f, next)) => {
                proof {
                    assert(functions_view(functions@.push(f)) =~= functions_view(functions@).push(
                        f@,
                    ));
                }
                functions.push(f);
                at = next;
            },
        }
        k += 1;
    }
    if has_duplicate_index(&functions) {
        return Err(ParseError::DuplicateIndex);
    }
    let name = copy_range(bytes, pos + 1, pos + 1 + nl);
    Ok((Module { name, functions }, at))
}

impl Module {
    /// Reads a descriptor: every module it declares, in order, or the
    /// reason why it is refused. Nothing is returned for a descriptor that
    /// is refused.
    pub fn parse(bytes: &[u8]) -> (r: Result<Vec<Module>, ParseError>)
        ensures
            match r {
                Ok(ms) => parse_descriptor(bytes@) == Ok::<_, ParseError>(modules_view(ms@)),
                Err(e) => parse_descriptor(bytes@) == Err::<Seq<ModuleModel>, _>(e),
            },
    {
        let len: usize = bytes.len();
        if len < 1 {
            return Err(ParseError::Truncated);
        }
        if bytes[0] != FORMAT_VERSION {
            return Err(ParseError::UnsupportedVersion);
        }
        if len < 2 {
            return Err(ParseError::Truncated);
        }
        let count: u8 = bytes[1];
        let mut modules: Vec<Module> = Vec::new();
        let mut at: usize = 2;
        let mut k: u8 = 0;
        assert(modules_view(modules@) =~= Seq::empty());
        while k < count
            invariant
                k <= count,
                bytes@[0] == FORMAT_VERSION,
                count == bytes@[1],
                2 <= at <= bytes@.len(),
                modules@.len() == k,
                parse_modules(bytes@, 2, count as nat, Seq::empty()) == parse_modules(
                    bytes@,
                    at as int,
                    (count - k) as nat,
                    modules_view(modules@),
                ),
            decreases count - k,
        {
            match read_module(bytes, at) {
                Err(e) => {
                    return Err(e);
                },
                Ok((m, next)) => {
                    proof {
                        assert(modules_view(modules@.push(m)) =~= modules_view(modules@).push(m@));
                    }
                    modules.push(m);
                    at = next;
                },
            }
            k += 1;
        }
        Ok(modules)
    }
}

// ---------------------------------------------------------------------
// The writer
// ---------------------------------------------------------------------

/// Appends `bytes` to `out`.
pub(crate) fn append_bytes(out: &mut Vec<u8>, bytes: &[u8])
    ensures
        final(out)@ == old(out)@ + bytes@,
{
    let n: usize = bytes.len();
    let mut i: usize = 0;
    while i < n
        invariant
            n == bytes@.len(),
            0 <= i <= n,
            out@ == old(out)@ + bytes@.take(i as int),
        decreases n - i,
    {
        out.push(bytes[i]);
        i += 1;
        assert(out@ =~= old(out)@ + bytes@.take(i as int));
    }
    assert(bytes@.take(n as int) =~= bytes@);
}

fn write_function(out: &mut Vec<u8>, f: &FunctionSignature)
    requires
        function_fits(f@),
    ensures
        final(out)@ == old(out)@ + function_bytes(f@),
{
    let ghost before = out@;
    out.push(f.name.len() as u8);
    append_bytes(out, f.name.as_slice());
    out.push(f.index);
    out.push(f.args.len() as u8);
    let ghost head = out@;
    let n: usize = f.args.len();
    let mut i: usize = 0;
    while i < n
        invariant
            n == f.args@.len(),
            0 <= i <= n,
            out@ == head + tags_of_types(f.args@).take(i as int),
        decreases n - i,
    {
        out.push(f.args[i].tag());
        i += 1;
        assert(out@ =~= head + tags_of_types(f.args@).take(i as int));
    }
    assert(tags_of_types(f.args@).take(n as int) =~= tags_of_types(f.args@));
    let rt: u8 = match f.ret {
        None => 0,
        Some(t) => t.tag(),
    };
    out.push(rt);
    assert(out@ =~= before + function_bytes(f@));
}

fn write_module(out: &mut Vec<u8>, m: &Module)
    requires
        module_fits(m@),
    ensures
        final(out)@ == old(out)@ + module_bytes(m@),
{
    let ghost before = out@;
    let ghost fv = functions_view(m.functions@);
    out.push(m.name.len() as u8);
    append_bytes(out, m.name.as_slice());
    out.push(m.functions.len() as u8);
    let ghost head = out@;
    let n: usize = m.functions.len();
    let mut i: usize = 0;
    assert(fv.take(0) =~= Seq::empty());
    while i < n
        invariant
            n == m.functions@.len(),
            0 <= i <= n,
            fv == functions_view(m.functions@),
            module_fits(m@),
            out@ == head + functions_bytes(fv.take(i as int)),
        decreases n - i,
    {
        let ghost so_far = out@;
        assert(function_fits(m@.functions[i as int]));
        write_function(out, &m.functions[i]);
        proof {
            let next = fv.take(i + 1);
            assert(next.drop_last() =~= fv.take(i as int));
            assert(next.last() == m.functions@[i as int]@);
            assert(out@ =~= head + functions_bytes(next));
        }
        i += 1;
    }
    assert(fv.take(n as int) =~= fv);
    assert(out@ =~= before + module_bytes(m@));
}

fn fits(m: &Module) -> (ok: bool)
    ensures
        ok == module_fits(m@),
{
    if m.name.len() > 255 || m.functions.len() > 255 {
        return false;
    }
    let n: usize = m.functions.len();
    let mut i: usize = 0;
    while i < n
        invariant
            n == m.functions@.len(),
            0 <= i <= n,
            forall|k: int| 0 <= k < i ==> function_fits(#[trigger] m@.functions[k]),
        decreases n - i,
    {
        if m.functions[i].name.len() > 255 || m.functions[i].args.len() > 255 {
            assert(!function_fits(m@.functions[i as int]));
            return false;
        }
        i += 1;
    }
    true
}

impl Module {
    /// Writes the descriptor of `modules`. A list with a part too long
    /// for its count byte has none, nor has one in which a module lists
    /// an index twice; length is looked at first.
    pub fn describe(modules: &Vec<Module>) -> (r: Result<Vec<u8>, DescribeError>)
        ensures
            match r {
                Ok(bytes) => describable(modules_view(modules@)) && bytes@ == descriptor_bytes(
                    modules_view(modules@),
                ),
                Err(DescribeError::TooLong) => !modules_fit(modules_view(modules@)),
                Err(DescribeError::DuplicateIndex) => modules_fit(modules_view(modules@))
                    && !modules_distinct(modules_view(modules@)),
            },
    {
        let ghost mv = modules_view(modules@);
        let n: usize = modules.len();
        if n > 255 {
            return Err(DescribeError::TooLong);
        }
        let mut i: usize = 0;
        while i < n
            invariant
                n == modules@.len(),
                0 <= i <= n,
                mv == modules_view(modules@),
                forall|k: int| 0 <= k < i ==> module_fits(#[trigger] mv[k]),
            decreases n - i,
        {
            if !fits(&modules[i]) {
                assert(!module_fits(mv[i as int]));
                return Err(DescribeError::TooLong);
            }
            i += 1;
        }
        i = 0;
        while i < n
            invariant
                n == modules@.len(),
                0 <= i <= n,
                mv == modules_view(modules@),
                modules_fit(mv),
                forall|k: int| 0 <= k < i ==> distinct_indices((#[trigger] mv[k]).functions),
            decreases n - i,
        {
            if has_duplicate_index(&modules[i].functions) {
                assert(!distinct_indices(mv[i as int].functions));
                return Err(DescribeError::DuplicateIndex);
            }
            i += 1;
        }
        let mut out: Vec<u8> = Vec::new();
        out.push(FORMAT_VERSION);
        out.push(n as u8);
        let ghost head = out@;
        assert(mv.take(0) =~= Seq::empty());
        i = 0;
        while i < n
            invariant
                n == modules@.len(),
                0 <= i <= n,
                mv == modules_view(modules@),
                modules_fit(mv),
                out@ == head + modules_bytes(mv.take(i as int)),
            decreases n - i,
        {
            assert(module_fits(mv[i as int]));
            write_module(&mut out, &modules[i]);
            proof {
                let next = mv.take(i + 1);
                assert(next.drop_last() =~= mv.take(i as int));
                assert(next.last() == modules@[i as int]@);
                assert(out@ =~= head + modules_bytes(next));
            }
            i += 1;
        }
        assert(mv.take(n as int) =~= mv);
        assert(out@ =~= descriptor_bytes(mv));
        Ok(out)
    }
}

} // verus!
