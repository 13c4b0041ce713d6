use vstd::prelude::*;
use crate::errors::{ParserError, SyntaxError};
use crate::imports::ImportType;
use crate::parser::closes_with;
use crate::span::Spanned;
use crate::stream::{Stream, Streamable};
use crate::token::{Token, TokenDiscriminants, Value};

verus! {

/// What an import names, as the contracts see it.
pub enum ImportView {
    /// The path of a file.
    Path(Seq<char>),
    /// The module path of an item.
    Dependency(Seq<Seq<char>>),
}

/// The strings of `v`, each by its characters.
pub open spec fn strings_view(v: Seq<String>) -> Seq<Seq<char>> {
    v.map_values(|s: String| s@)
}

impl View for ImportType {
    type V = ImportView;

    open spec fn view(&self) -> ImportView {
        match self {
            ImportType::Path(p) => ImportView::Path(p@),
            ImportType::Dependency(c) => ImportView::Dependency(strings_view(c@)),
        }
    }
}

/// The imports of a source file: each stored name with what it imports.
pub open spec fn imports_view(imports: Seq<(String, ImportType)>) -> Seq<(Seq<char>, ImportView)> {
    imports.map_values(|e: (String, ImportType)| (e.0@, e.1@))
}

/// Whether no two imports are stored under the same name.
pub open spec fn import_names_distinct(imports: Seq<(Seq<char>, ImportView)>) -> bool {
    forall|i: int, j: int| 0 <= i < j < imports.len() ==> (#[trigger] imports[i]).0 != (#[trigger] imports[j]).0
}

/// Whether an import is stored under `name`.
pub open spec fn has_import(imports: Seq<(Seq<char>, ImportView)>, name: Seq<char>) -> bool {
    exists|i: int| 0 <= i < imports.len() && (#[trigger] imports[i]).0 == name
}

/// `imports` with `import` stored under `name`: in place of what was stored
/// under that name, or added.
pub open spec fn imports_insert(
    imports: Seq<(Seq<char>, ImportView)>,
    name: Seq<char>,
    import: ImportView,
) -> Seq<(Seq<char>, ImportView)> {
    if has_import(imports, name) {
        Seq::new(imports.len(), |k: int| if imports[k].0 == name { (name, import) } else { imports[k] })
    } else {
        imports.push((name, import))
    }
}

/// The error for a malformed import.
pub open spec fn import_syntax_error() -> ParserError {
    ParserError::SyntaxError(SyntaxError::InvalidImportDefinition)
}

/// The rest of a module path, read from position `q` of `ts` and added to
/// `acc`: `"::" <name>` again and again, up to an `as` or the end of the
/// tokens. With the position after it.
pub open spec fn spec_module_path(ts: Seq<Spanned<Token>>, q: int, acc: Seq<Seq<char>>) -> (
    Result<Seq<Seq<char>>, ParserError>,
    int,
)
    decreases ts.len() - q,
{
    if !(0 <= q < ts.len()) || ts[q].inner is As {
        (Ok(acc), q)
    } else {
        let (c1, colons) = closes_with(ts, q, TokenDiscriminants::DoubleColon);
        if !colons {
            (Err(import_syntax_error()), c1)
        } else {
            let (c2, named) = closes_with(ts, c1, TokenDiscriminants::Identifier);
            if !named {
                (Err(import_syntax_error()), c2)
            } else {
                spec_module_path(ts, c2, acc.push(ts[c1].inner->Identifier_0@))
            }
        }
    }
}

/// The alias of an import, read from position `c`: nothing when no token is
/// left; else the token there (`as`) and a name, which must be the last
/// token. With the position after it.
pub open spec fn spec_alias(ts: Seq<Spanned<Token>>, c: int) -> (Result<Option<Seq<char>>, ParserError>, int) {
    if !(0 <= c < ts.len()) {
        (Ok(None), c)
    } else {
        let (e, named) = closes_with(ts, c + 1, TokenDiscriminants::Identifier);
        if !named || e < ts.len() {
            (Err(ParserError::InvalidImportAlias), e)
        } else {
            (Ok(Some(ts[c + 1].inner->Identifier_0@)), e)
        }
    }
}

/// What is imported under `name`, or under the alias that follows from
/// position `c`.
pub open spec fn spec_stored(ts: Seq<Spanned<Token>>, c: int, name: Seq<char>, import: ImportView) -> (
    Result<(Seq<char>, ImportView), ParserError>,
    int,
) {
    let (a, e) = spec_alias(ts, c);
    match a {
        Err(x) => (Err(x), e),
        Ok(None) => (Ok((name, import)), e),
        Ok(Some(alias)) => (Ok((alias, import)), e),
    }
}

/// An import statement read from position `p` of `ts`, after `import`: a
/// file's path as a string literal, stored under its file name up to the
/// first `.` (`prefix`, when the path has one), or a module path
/// `<name> {"::" <name>}`, stored under its last name; either may be
/// followed by `as <alias>`, stored under the alias. The name it is stored
/// under, what it imports, and the position after it.
pub open spec fn spec_import(ts: Seq<Spanned<Token>>, p: int, prefix: Option<Seq<char>>) -> (
    Result<(Seq<char>, ImportView), ParserError>,
    int,
) {
    if !(0 <= p < ts.len()) {
        (Err(ParserError::EOF), p)
    } else {
        match ts[p].inner {
            Token::Literal(Value::String(path)) => match prefix {
                None => (Err(ParserError::InvalidImportPath), p + 1),
                Some(name) => spec_stored(ts, p + 1, name, ImportView::Path(path@)),
            },
            Token::Identifier(first) => {
                let (r, c) = spec_module_path(ts, p + 1, seq![first@]);
                match r {
                    Err(x) => (Err(x), c),
                    Ok(chain) => spec_stored(ts, c, chain.last(), ImportView::Dependency(chain)),
                }
            },
            _ => (Err(import_syntax_error()), p + 1),
        }
    }
}

/// Whether an import statement read from position `p` of `ts`, with the
/// file name `prefix` for a path, ends with `r`, the cursor at `cursor` and
/// `after` as the imports that were `before`: an error while reading leaves
/// the imports as they are; what was read is stored, and a name that was
/// already taken is reported after the new import has replaced the old.
pub open spec fn import_outcome(
    ts: Seq<Spanned<Token>>,
    p: int,
    prefix: Option<Seq<char>>,
    before: Seq<(Seq<char>, ImportView)>,
    after: Seq<(Seq<char>, ImportView)>,
    r: Result<(), ParserError>,
    cursor: int,
) -> bool {
    &&& cursor == spec_import(ts, p, prefix).1
    &&& match spec_import(ts, p, prefix).0 {
        Err(e) => r == Err::<(), ParserError>(e) && after == before,
        Ok((name, import)) => {
            &&& after == imports_insert(before, name, import)
            &&& if has_import(before, name) {
                r matches Err(ParserError::ImportNameCollision(n)) && n@ == name
            } else {
                r is Ok
            }
        },
    }
}

/// Whether the token at `p` is a string literal: an import of a file.
pub open spec fn path_literal_at(ts: Seq<Spanned<Token>>, p: int) -> bool {
    0 <= p < ts.len() && ts[p].inner matches Token::Literal(Value::String(_))
}

/// The characters of an optional string.
pub open spec fn option_view(s: Option<String>) -> Option<Seq<char>> {
    match s {
        Some(x) => Some(x@),
        None => None,
    }
}

/// The file name of `path` up to its first `.` that does not start it.
///
/// Trusted: `std::path::Path::file_prefix` takes the last component of the
/// path (none when it ends in `..` or is a root) and cuts it at that `.`.
/// Which characters separate components depends on the platform, so
/// nothing is stated of the result.
#[verifier::external_body]
fn file_prefix_of(path: &String) -> (r: Option<String>) {
    std::path::Path::new(path.as_str()).file_prefix().map(|s| s.to_string_lossy().to_string())
}

fn copy_strings(v: &Vec<String>) -> (r: Vec<String>)
    ensures
        r@ == v@,
{
    let mut out: Vec<String> = Vec::new();
    let mut i: usize = 0;
    while i < v.len()
        invariant
            0 <= i <= v@.len(),
            out@ == v@.take(i as int),
        decreases v@.len() - i,
    {
        out.push(v[i].clone());
        proof {
            assert(v@.take(i + 1) =~= v@.take(i as int).push(v@[i as int]));
        }
        i = i + 1;
    }
    proof {
        assert(v@.take(v@.len() as int) =~= v@);
    }
    out
}

fn module_path_at(ts: &[Spanned<Token>], q: usize, acc: Vec<String>) -> (r: (Result<Vec<String>, ParserError>, usize))
    requires
        q <= ts@.len(),
    ensures
        r.1 == spec_module_path(ts@, q as int, strings_view(acc@)).1,
        q <= r.1 <= ts@.len(),
        r.0 matches Ok(v) ==> v@.len() >= acc@.len(),
        match spec_module_path(ts@, q as int, strings_view(acc@)).0 {
            Ok(c) => r.0 matches Ok(v) && strings_view(v@) == c,
            Err(e) => r.0 == Err::<Vec<String>, ParserError>(e),
        },
    decreases ts@.len() - q,
{
    if q >= ts.len() || ts[q].inner.is_kind(&TokenDiscriminants::As) {
        return (Ok(acc), q);
    }
    if !ts[q].inner.is_kind(&TokenDiscriminants::DoubleColon) {
        return (Err(ParserError::SyntaxError(SyntaxError::InvalidImportDefinition)), q + 1);
    }
    let c1 = q + 1;
    if c1 >= ts.len() {
        return (Err(ParserError::SyntaxError(SyntaxError::InvalidImportDefinition)), c1);
    }
    match &ts[c1].inner {
        Token::Identifier(name) => {
            let mut next = acc;
            let ghost before = next@;
            next.push(name.clone());
            proof {
                assert(strings_view(next@) =~= strings_view(before).push(name@));
            }
            module_path_at(ts, c1 + 1, next)
        },
        _ => (Err(ParserError::SyntaxError(SyntaxError::InvalidImportDefinition)), c1 + 1),
    }
}

/// Where an import is stored under `name`, if one is.
fn find_import(imports: &Vec<(String, ImportType)>, name: &String) -> (r: Option<usize>)
    ensures
        match r {
            Some(k) => k < imports@.len() && imports@[k as int].0@ == name@,
            None => !has_import(imports_view(imports@), name@),
        },
{
    let mut i: usize = 0;
    while i < imports.len()
        invariant
            0 <= i <= imports@.len(),
            forall|k: int| 0 <= k < i ==> (#[trigger] imports@[k]).0@ != name@,
        decreases imports@.len() - i,
    {
        if imports[i].0 == *name {
            return Some(i);
        }
        i = i + 1;
    }
    proof {
        assert forall|k: int| 0 <= k < imports@.len() implies (#[trigger] imports_view(imports@)[k]).0 != name@ by {
            assert(imports_view(imports@)[k].0 == imports@[k].0@);
        }
    }
    None
}

/// Stores `import` under `name`, and reports a name that was taken.
fn store_import(imports: &mut Vec<(String, ImportType)>, name: String, import: ImportType) -> (r: Result<(), ParserError>)
    requires
        import_names_distinct(imports_view(old(imports)@)),
    ensures
        imports_view(final(imports)@) == imports_insert(imports_view(old(imports)@), name@, import@),
        import_names_distinct(imports_view(final(imports)@)),
        if has_import(imports_view(old(imports)@), name@) {
            r matches Err(ParserError::ImportNameCollision(n)) && n@ == name@
        } else {
            r is Ok
        },
{
    let ghost before = imports_view(imports@);
    match find_import(imports, &name) {
        Some(k) => {
            let taken = name.clone();
            let ghost imp = import@;
            imports.set(k, (name, import));
            proof {
                assert(before[k as int].0 == name@);
                assert(has_import(before, name@));
                assert forall|j: int| 0 <= j < before.len() && j != k implies before[j].0 != name@ by {
                    if j < k {
                        assert(before[j].0 != before[k as int].0);
                    } else {
                        assert(before[k as int].0 != before[j].0);
                    }
                }
                assert(imports_view(imports@) =~= imports_insert(before, name@, imp));
                let after = imports_view(imports@);
                assert forall|i: int, j: int| 0 <= i < j < after.len() implies (#[trigger] after[i]).0 != (#[trigger] after[j]).0 by {
                    if i != k && j != k {
                        assert(before[i].0 != before[j].0);
                    }
                }
            }
            Err(ParserError::ImportNameCollision(taken))
        },
        None => {
            let ghost entry = (name@, import@);
            imports.push((name, import));
            proof {
                assert(imports_view(imports@) =~= before.push(entry));
                let after = imports_view(imports@);
                assert forall|i: int, j: int| 0 <= i < j < after.len() implies (#[trigger] after[i]).0 != (#[trigger] after[j]).0 by {
                    if j == before.len() {
                        assert(after[i] == before[i]);
                    } else {
                        assert(before[i].0 != before[j].0);
                    }
                }
            }
            Ok(())
        },
    }
}

/// Reads the alias from position `c` and stores `import` under it, or
/// under `name` when there is none.
fn store_with_alias(
    ts: &[Spanned<Token>],
    c: usize,
    name: String,
    import: ImportType,
    imports: &mut Vec<(String, ImportType)>,
) -> (r: (Result<(), ParserError>, usize))
    requires
        c <= ts@.len(),
        import_names_distinct(imports_view(old(imports)@)),
    ensures
        import_names_distinct(imports_view(final(imports)@)),
        r.1 == spec_stored(ts@, c as int, name@, import@).1,
        match spec_stored(ts@, c as int, name@, import@).0 {
            Err(e) => r.0 == Err::<(), ParserError>(e) && final(imports)@ == old(imports)@,
            Ok((n, imp)) => {
                &&& imports_view(final(imports)@) == imports_insert(imports_view(old(imports)@), n, imp)
                &&& if has_import(imports_view(old(imports)@), n) {
                    r.0 matches Err(ParserError::ImportNameCollision(x)) && x@ == n
                } else {
                    r.0 is Ok
                }
            },
        },
{
    if c >= ts.len() {
        let r = store_import(imports, name, import);
        return (r, c);
    }
    let a = c + 1;
    if a >= ts.len() {
        return (Err(ParserError::InvalidImportAlias), a);
    }
    match &ts[a].inner {
        Token::Identifier(alias) => {
            if a + 1 < ts.len() {
                return (Err(ParserError::InvalidImportAlias), a + 1);
            }
            let r = store_import(imports, alias.clone(), import);
            (r, a + 1)
        },
        _ => (Err(ParserError::InvalidImportAlias), a + 1),
    }
}

/// Parses an import statement, after `import`, and stores it in `imports`,
/// with `prefix` as the file name of an imported path: see `spec_import`
/// for the syntax and `import_outcome` for what is stored and returned.
pub fn parse_import_statement_with(
    tokens: &mut Stream<Spanned<Token>>,
    imports: &mut Vec<(String, ImportType)>,
    prefix: Option<String>,
) -> (r: Result<(), ParserError>)
    requires
        old(tokens).spec_valid(),
        import_names_distinct(imports_view(old(imports)@)),
    ensures
        final(tokens).spec_valid(),
        final(tokens).spec_items() == old(tokens).spec_items(),
        import_names_distinct(imports_view(final(imports)@)),
        import_outcome(
            old(tokens).spec_items(),
            old(tokens).spec_cursor(),
            option_view(prefix),
            imports_view(old(imports)@),
            imports_view(final(imports)@),
            r,
            final(tokens).spec_cursor(),
        ),
{
    let p = tokens.stream_idx();
    let len = Stream::len(tokens);
    if p >= len {
        return Err(ParserError::EOF);
    }
    let ts = tokens.items();
    let (r, e) = match &ts[p].inner {
        Token::Literal(Value::String(path)) => match prefix {
            None => (Err(ParserError::InvalidImportPath), p + 1),
            Some(name) => store_with_alias(ts, p + 1, name, ImportType::Path(path.clone()), imports),
        },
        Token::Identifier(first) => {
            let mut chain: Vec<String> = Vec::new();
            chain.push(first.clone());
            proof {
                assert(strings_view(chain@) =~= seq![first@]);
            }
            let (m, c) = module_path_at(ts, p + 1, chain);
            match m {
                Err(x) => (Err(x), c),
                Ok(chain) => {
                    let last = chain[chain.len() - 1].clone();
                    proof {
                        assert(strings_view(chain@).last() == last@);
                    }
                    store_with_alias(ts, c, last, ImportType::Dependency(copy_strings(&chain)), imports)
                },
            }
        },
        _ => (Err(ParserError::SyntaxError(SyntaxError::InvalidImportDefinition)), p + 1),
    };
    tokens.set_cursor(e);
    r
}

/// Parses an import statement, after `import`, and stores it in `imports`.
/// The file name of an imported path is read from the path as the platform
/// splits it; for a module path the outcome is the one `spec_import` and
/// `import_outcome` give.
pub fn parse_import_statement(tokens: &mut Stream<Spanned<Token>>, imports: &mut Vec<(String, ImportType)>) -> (r: Result<
    (),
    ParserError,
>)
    requires
        old(tokens).spec_valid(),
        import_names_distinct(imports_view(old(imports)@)),
    ensures
        final(tokens).spec_valid(),
        final(tokens).spec_items() == old(tokens).spec_items(),
        import_names_distinct(imports_view(final(imports)@)),
        !path_literal_at(old(tokens).spec_items(), old(tokens).spec_cursor()) ==> import_outcome(
            old(tokens).spec_items(),
            old(tokens).spec_cursor(),
            None,
            imports_view(old(imports)@),
            imports_view(final(imports)@),
            r,
            final(tokens).spec_cursor(),
        ),
        path_literal_at(old(tokens).spec_items(), old(tokens).spec_cursor()) ==> exists|prefix: Option<Seq<char>>|
            import_outcome(
                old(tokens).spec_items(),
                old(tokens).spec_cursor(),
                prefix,
                imports_view(old(imports)@),
                imports_view(final(imports)@),
                r,
                final(tokens).spec_cursor(),
            ),
{
    let p = tokens.stream_idx();
    let prefix: Option<String> = if p < Stream::len(tokens) {
        match &tokens.items()[p].inner {
            Token::Literal(Value::String(path)) => file_prefix_of(path),
            _ => None,
        }
    } else {
        None
    };
    parse_import_statement_with(tokens, imports, prefix)
}

} // verus!
