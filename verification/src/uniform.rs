use vstd::prelude::*;

verus! {

broadcast use vstd::string::group_string_axioms;

/// Unicode `White_Space` characters (what `char::is_whitespace` accepts).
pub open spec fn is_ws(c: char) -> bool {
    ||| ('\u{9}' <= c && c <= '\u{d}')
    ||| c == ' '
    ||| c == '\u{85}'
    ||| c == '\u{a0}'
    ||| c == '\u{1680}'
    ||| ('\u{2000}' <= c && c <= '\u{200a}')
    ||| c == '\u{2028}'
    ||| c == '\u{2029}'
    ||| c == '\u{202f}'
    ||| c == '\u{205f}'
    ||| c == '\u{3000}'
}

/// Whether `c` is white space.
pub fn is_whitespace(c: char) -> (r: bool)
    ensures
        r == is_ws(c),
{
    ('\u{9}' <= c && c <= '\u{d}') || c == ' ' || c == '\u{85}' || c == '\u{a0}' || c == '\u{1680}'
        || ('\u{2000}' <= c && c <= '\u{200a}') || c == '\u{2028}' || c == '\u{2029}' || c == '\u{202f}'
        || c == '\u{205f}' || c == '\u{3000}'
}

/// `t` without its leading white space.
pub open spec fn trim_start(t: Seq<char>) -> Seq<char>
    decreases t.len(),
{
    if t.len() > 0 && is_ws(t[0]) {
        trim_start(t.drop_first())
    } else {
        t
    }
}

/// `t` without its trailing white space.
pub open spec fn trim_end(t: Seq<char>) -> Seq<char>
    decreases t.len(),
{
    if t.len() > 0 && is_ws(t.last()) {
        trim_end(t.drop_last())
    } else {
        t
    }
}

/// `t` without leading and trailing white space.
pub open spec fn trim(t: Seq<char>) -> Seq<char> {
    trim_end(trim_start(t))
}

/// Position of the first `sep` in `t`, or `t.len()` when there is none.
pub open spec fn first_sep(t: Seq<char>, sep: char) -> int
    decreases t.len(),
{
    if t.len() == 0 {
        0
    } else if t[0] == sep {
        0
    } else {
        first_sep(t.drop_first(), sep) + 1
    }
}

pub proof fn lemma_first_sep_bounds(t: Seq<char>, sep: char)
    ensures
        0 <= first_sep(t, sep) <= t.len(),
        first_sep(t, sep) < t.len() ==> t[first_sep(t, sep)] == sep,
        forall|k: int| 0 <= k < first_sep(t, sep) ==> t[k] != sep,
    decreases t.len(),
{
    if t.len() > 0 && t[0] != sep {
        lemma_first_sep_bounds(t.drop_first(), sep);
        assert forall|k: int| 0 <= k < first_sep(t, sep) implies t[k] != sep by {
            if k > 0 {
                assert(t[k] == t.drop_first()[k - 1]);
            }
        }
    }
}

proof fn lemma_first_sep_is(t: Seq<char>, sep: char, m: int)
    requires
        0 <= m <= t.len(),
        forall|k: int| 0 <= k < m ==> t[k] != sep,
        m < t.len() ==> t[m] == sep,
    ensures
        first_sep(t, sep) == m,
    decreases t.len(),
{
    if t.len() > 0 && t[0] != sep {
        assert forall|k: int| 0 <= k < m - 1 implies t.drop_first()[k] != sep by {
            assert(t.drop_first()[k] == t[k + 1]);
        }
        lemma_first_sep_is(t.drop_first(), sep, m - 1);
    }
}

/// The pieces of `t` between occurrences of `sep`, as `str::split` gives
/// them: one more piece than there are separators, empty pieces included.
pub open spec fn split_on(t: Seq<char>, sep: char) -> Seq<Seq<char>>
    decreases t.len(),
{
    let e = first_sep(t, sep);
    if e >= t.len() {
        seq![t]
    } else {
        proof {
            lemma_first_sep_bounds(t, sep);
        }
        seq![t.subrange(0, e)] + split_on(t.subrange(e + 1, t.len() as int), sep)
    }
}

/// The characters `from..to` of `s`, without leading and trailing white
/// space, as a range of `s`.
fn trim_range(s: &str, from: usize, to: usize) -> (r: (usize, usize))
    requires
        from <= to <= s@.len(),
    ensures
        from <= r.0 <= r.1 <= to,
        s@.subrange(r.0 as int, r.1 as int) == trim(s@.subrange(from as int, to as int)),
{
    let mut a = from;
    while a < to && is_whitespace(s.get_char(a))
        invariant
            from <= a <= to <= s@.len(),
            trim_start(s@.subrange(a as int, to as int)) == trim_start(s@.subrange(from as int, to as int)),
        decreases to - a,
    {
        assert(s@.subrange(a as int, to as int).drop_first() =~= s@.subrange(a + 1, to as int));
        a += 1;
    }
    let mut b = to;
    while a < b && is_whitespace(s.get_char(b - 1))
        invariant
            a <= b <= to <= s@.len(),
            trim_end(s@.subrange(a as int, b as int)) == trim_end(s@.subrange(a as int, to as int)),
        decreases b - a,
    {
        assert(s@.subrange(a as int, b as int).drop_last() =~= s@.subrange(a as int, b - 1));
        b -= 1;
    }
    (a, b)
}

/// Where the pieces of `s` split at `sep` lie, as ranges of `s`.
fn split_ranges(s: &str, sep: char) -> (r: Vec<(usize, usize)>)
    ensures
        r.len() == split_on(s@, sep).len(),
        forall|i: int| 0 <= i < r.len() ==> {
            &&& (#[trigger] r@[i]).0 <= r@[i].1 <= s@.len()
            &&& s@.subrange(r@[i].0 as int, r@[i].1 as int) == split_on(s@, sep)[i]
        },
{
    let n = s.unicode_len();
    let mut ranges: Vec<(usize, usize)> = Vec::new();
    let mut a: usize = 0;
    assert(ranges@.map_values(|p: (usize, usize)| s@.subrange(p.0 as int, p.1 as int)) =~= Seq::<Seq<char>>::empty());
    assert(s@.subrange(0, n as int) =~= s@);
    loop
        invariant
            n == s@.len(),
            a <= n,
            ranges@.map_values(|p: (usize, usize)| s@.subrange(p.0 as int, p.1 as int))
                + split_on(s@.subrange(a as int, n as int), sep) == split_on(s@, sep),
            forall|i: int| 0 <= i < ranges.len() ==> (#[trigger] ranges@[i]).0 <= ranges@[i].1 <= n,
        decreases n - a,
    {
        let ghost t = s@.subrange(a as int, n as int);
        let mut e = a;
        while e < n && s.get_char(e) != sep
            invariant
                n == s@.len(),
                a <= e <= n,
                forall|k: int| a <= k < e ==> s@[k] != sep,
            decreases n - e,
        {
            e += 1;
        }
        proof {
            assert forall|k: int| 0 <= k < e - a implies t[k] != sep by {
                assert(t[k] == s@[a + k]);
            }
            lemma_first_sep_is(t, sep, e - a);
        }
        let ghost before = ranges@;
        ranges.push((a, e));
        proof {
            assert(ranges@.map_values(|p: (usize, usize)| s@.subrange(p.0 as int, p.1 as int)) =~= before.map_values(
                |p: (usize, usize)| s@.subrange(p.0 as int, p.1 as int),
            ).push(s@.subrange(a as int, e as int)));
            assert(t.subrange(0, e - a) =~= s@.subrange(a as int, e as int));
        }
        if e >= n {
            proof {
                assert(t =~= s@.subrange(a as int, e as int));
                assert(split_on(t, sep) == seq![t]);
            }
            let ghost mapped = ranges@.map_values(|p: (usize, usize)| s@.subrange(p.0 as int, p.1 as int));
            assert(mapped =~= split_on(s@, sep));
            assert forall|i: int| 0 <= i < ranges.len() implies s@.subrange(ranges@[i].0 as int, ranges@[i].1 as int)
                == split_on(s@, sep)[i] by {
                assert(mapped[i] == s@.subrange(ranges@[i].0 as int, ranges@[i].1 as int));
            }
            return ranges;
        }
        proof {
            assert(t.subrange(e - a + 1, t.len() as int) =~= s@.subrange(e + 1, n as int));
            assert(split_on(t, sep) == seq![t.subrange(0, e - a)] + split_on(s@.subrange(e + 1, n as int), sep));
        }
        a = e + 1;
    }
}

/// Whether two strings hold the same characters.
fn same_text(a: &str, b: &str) -> (r: bool)
    ensures
        r == (a@ == b@),
{
    let n = a.unicode_len();
    if n != b.unicode_len() {
        return false;
    }
    let mut i: usize = 0;
    while i < n
        invariant
            n == a@.len(),
            n == b@.len(),
            i <= n,
            forall|k: int| 0 <= k < i ==> a@[k] == b@[k],
        decreases n - i,
    {
        if a.get_char(i) != b.get_char(i) {
            return false;
        }
        i += 1;
    }
    assert(a@ =~= b@);
    true
}

/// The Rust type of a uniform field of shader type `cls`.
pub open spec fn rust_type(cls: Seq<char>) -> Seq<char> {
    if cls == "vec3"@ {
        "nalgebra::Vector3<f32>,"@
    } else if cls == "f32"@ {
        "f32,"@
    } else if cls == "mat4"@ {
        "nalgebra::Matrix4<f32>,"@
    } else {
        Seq::empty()
    }
}

/// The WGSL type of a uniform field of shader type `cls`.
pub open spec fn wgsl_type(cls: Seq<char>) -> Seq<char> {
    if cls == "vec3"@ {
        "vec3<f32>"@
    } else if cls == "f32"@ {
        "f32"@
    } else if cls == "mat4"@ {
        "mat4x4<f32>"@
    } else {
        Seq::empty()
    }
}

/// The line declaring field `tok` (`name : type`) in the Rust struct.
pub open spec fn rust_field(tok: Seq<char>) -> Seq<char> {
    let p = split_on(tok, ':');
    "    pub "@ + trim(p[0]) + " : "@ + rust_type(trim(p[1])) + "\n"@
}

/// Field `tok` (`name : type`) as a WGSL struct member.
pub open spec fn wgsl_field(tok: Seq<char>) -> Seq<char> {
    let p = split_on(tok, ':');
    trim(p[0]) + " : "@ + wgsl_type(trim(p[1]))
}

pub open spec fn rust_fields(toks: Seq<Seq<char>>) -> Seq<char>
    decreases toks.len(),
{
    if toks.len() == 0 {
        Seq::empty()
    } else {
        rust_fields(toks.drop_last()) + rust_field(toks.last())
    }
}

/// The WGSL members, separated by commas.
pub open spec fn wgsl_fields(toks: Seq<Seq<char>>) -> Seq<char>
    decreases toks.len(),
{
    if toks.len() == 0 {
        Seq::empty()
    } else if toks.len() == 1 {
        wgsl_field(toks[0])
    } else {
        wgsl_fields(toks.drop_last()) + ", "@ + wgsl_field(toks.last())
    }
}

pub open spec fn without_newlines(t: Seq<char>) -> Seq<char>
    decreases t.len(),
{
    if t.len() == 0 {
        Seq::empty()
    } else {
        without_newlines(t.drop_last()) + (if t.last() == '\n' { Seq::empty() } else { seq![t.last()] })
    }
}

/// Every field after the struct's name has the form `name : type`.
pub open spec fn fields_have_types(item: Seq<char>) -> bool {
    let toks = split_on(item, ',');
    forall|i: int| 1 <= i < toks.len() ==> split_on(#[trigger] toks[i], ':').len() >= 2
}

/// The WGSL declaration of the uniform struct described by `item`.
pub open spec fn shader_struct(item: Seq<char>) -> Seq<char> {
    let toks = split_on(item, ',');
    "struct "@ + trim(toks[0]) + " {"@ + wgsl_fields(toks.drop_first()) + "}\n"@
}

/// The Rust source generated for `item` (`Name, field : type, ...`): the
/// struct with its fields, and the impl naming it and giving its WGSL
/// declaration on one line.
pub open spec fn uniform_source(item: Seq<char>) -> Seq<char> {
    let toks = split_on(item, ',');
    let name = trim(toks[0]);
    "#[derive(ShaderType)]\n"@ + "pub struct "@ + toks[0] + " {\n"@ + rust_fields(toks.drop_first()) + "}\n"@
        + "\n"@ + "impl ShaderUniform for "@ + name + " {\n"@ + "fn get_name(&self) -> String {\n"@
        + "\""@ + name + "\".to_string()\n"@ + "}\n"@ + "fn get_struct(&self) -> String {\n"@
        + "\""@ + without_newlines(shader_struct(item)) + "\".to_string()\n"@ + "}\n"@ + "}"@
}

proof fn lemma_split_nonempty(t: Seq<char>, sep: char)
    ensures
        split_on(t, sep).len() >= 1,
{
}

/// Append the Rust type of shader type `cls`.
fn push_rust_type(out: &mut String, cls: &str)
    ensures
        final(out)@ == old(out)@ + rust_type(cls@),
{
    if same_text(cls, "vec3") {
        out.append("nalgebra::Vector3<f32>,");
    } else if same_text(cls, "f32") {
        out.append("f32,");
    } else if same_text(cls, "mat4") {
        out.append("nalgebra::Matrix4<f32>,");
    } else {
        assert(old(out)@ + rust_type(cls@) =~= old(out)@);
    }
}

/// Append the WGSL type of shader type `cls`.
fn push_wgsl_type(out: &mut String, cls: &str)
    ensures
        final(out)@ == old(out)@ + wgsl_type(cls@),
{
    if same_text(cls, "vec3") {
        out.append("vec3<f32>");
    } else if same_text(cls, "f32") {
        out.append("f32");
    } else if same_text(cls, "mat4") {
        out.append("mat4x4<f32>");
    } else {
        assert(old(out)@ + wgsl_type(cls@) =~= old(out)@);
    }
}

/// The Rust source for the uniform struct described by `item`
/// (`Name, field : type, ...`, fields of shader type `vec3`, `f32` or
/// `mat4`): the struct, and an impl giving its name and its WGSL
/// declaration.
pub fn unifrom_struct(item: &str) -> (r: String)
    requires
        fields_have_types(item@),
    ensures
        r@ == uniform_source(item@),
        ({
            let toks = split_on(item@, ',');
            let head = "#[derive(ShaderType)]\n"@ + "pub struct "@ + toks[0] + " {\n"@
                + declared_fields(toks.drop_first()).flatten() + "}\n"@;
            &&& head.len() <= r@.len()
            &&& r@.take(head.len() as int) == head
        }),
        ({
            let toks = split_on(item@, ',');
            let decl = "struct "@ + trim(toks[0]) + " {"@ + declared_members(toks.drop_first()).flatten() + "}\n"@;
            let tail = "\""@ + without_newlines(decl) + "\".to_string()\n"@ + "}\n"@ + "}"@;
            &&& tail.len() <= r@.len()
            &&& r@.skip(r@.len() - tail.len()) == tail
        }),
{
    let ghost toks = split_on(item@, ',');
    let ghost ft = toks.drop_first();
    proof {
        lemma_split_nonempty(item@, ',');
    }
    let ranges = split_ranges(item, ',');
    let a0 = ranges[0].0;
    let b0 = ranges[0].1;
    let tok0 = item.substring_char(a0, b0);
    let (n0, n1) = trim_range(item, a0, b0);
    let name = item.substring_char(n0, n1);
    let mut fields = String::new();
    let mut members = String::new();
    let k = ranges.len();
    let mut i: usize = 1;
    assert(ft.take(0) =~= Seq::<Seq<char>>::empty());
    while i < k
        invariant
            k == ranges.len(),
            k == toks.len(),
            toks == split_on(item@, ','),
            ft == toks.drop_first(),
            fields_have_types(item@),
            forall|j: int| 0 <= j < ranges.len() ==> {
                &&& (#[trigger] ranges@[j]).0 <= ranges@[j].1 <= item@.len()
                &&& item@.subrange(ranges@[j].0 as int, ranges@[j].1 as int) == toks[j]
            },
            1 <= i <= k,
            fields@ == rust_fields(ft.take(i - 1)),
            members@ == wgsl_fields(ft.take(i - 1)),
        decreases k - i,
    {
        let a = ranges[i].0;
        let b = ranges[i].1;
        let tok = item.substring_char(a, b);
        let ghost parts = split_on(tok@, ':');
        assert(split_on(toks[i as int], ':').len() >= 2);
        let pieces = split_ranges(tok, ':');
        let (p0a, p0b) = trim_range(tok, pieces[0].0, pieces[0].1);
        let (p1a, p1b) = trim_range(tok, pieces[1].0, pieces[1].1);
        let fname = tok.substring_char(p0a, p0b);
        let cls = tok.substring_char(p1a, p1b);
        assert(fname@ == trim(parts[0]));
        assert(cls@ == trim(parts[1]));
        let ghost fields_before = fields@;
        let ghost members_before = members@;
        fields.append("    pub ");
        fields.append(fname);
        fields.append(" : ");
        push_rust_type(&mut fields, cls);
        fields.append("\n");
        if i > 1 {
            members.append(", ");
        }
        members.append(fname);
        members.append(" : ");
        push_wgsl_type(&mut members, cls);
        proof {
            let now = ft.take(i as int);
            assert(now.drop_last() =~= ft.take(i - 1));
            assert(now.last() == tok@);
            assert(fields@ =~= fields_before + rust_field(tok@));
            if i > 1 {
                assert(members@ =~= members_before + ", "@ + wgsl_field(tok@));
            } else {
                assert(ft.take(0) =~= Seq::<Seq<char>>::empty());
                assert(members@ =~= wgsl_field(tok@));
                assert(now =~= seq![tok@]);
            }
        }
        i += 1;
    }
    assert(ft.take(k - 1) =~= ft);
    let mut shader = String::new();
    shader.append("struct ");
    shader.append(name);
    shader.append(" {");
    shader.append(members.as_str());
    shader.append("}\n");
    assert(shader@ =~= shader_struct(item@));
    let sh = shader.as_str();
    let m = sh.unicode_len();
    let mut flat = String::new();
    let mut j: usize = 0;
    assert(sh@.take(0) =~= Seq::<char>::empty());
    while j < m
        invariant
            m == sh@.len(),
            j <= m,
            flat@ == without_newlines(sh@.take(j as int)),
        decreases m - j,
    {
        let c = sh.get_char(j);
        let ghost before = flat@;
        if c != '\n' {
            flat.append(sh.substring_char(j, j + 1));
        }
        proof {
            let now = sh@.take(j + 1);
            assert(now.drop_last() =~= sh@.take(j as int));
            assert(now.last() == c);
            assert(sh@.subrange(j as int, j + 1) =~= seq![c]);
            if c != '\n' {
                assert(flat@ =~= before + seq![c]);
            } else {
                assert(flat@ =~= before + Seq::<char>::empty());
            }
        }
        j += 1;
    }
    assert(sh@.take(m as int) =~= sh@);
    let mut res = String::new();
    res.append("#[derive(ShaderType)]\n");
    res.append("pub struct ");
    res.append(tok0);
    res.append(" {\n");
    res.append(fields.as_str());
    res.append("}\n");
    res.append("\n");
    res.append("impl ShaderUniform for ");
    res.append(name);
    res.append(" {\n");
    res.append("fn get_name(&self) -> String {\n");
    res.append("\"");
    res.append(name);
    res.append("\".to_string()\n");
    res.append("}\n");
    res.append("fn get_struct(&self) -> String {\n");
    res.append("\"");
    res.append(flat.as_str());
    res.append("\".to_string()\n");
    res.append("}\n");
    res.append("}");
    assert(res@ =~= uniform_source(item@));
    proof {
        law_struct_declares_every_field(item@, res@);
        law_shader_declares_every_field(item@, res@);
    }
    res
}

/// The Rust source for `item` as `unifrom_struct` gives it, or `None` when a
/// field lacks its `: type`.
pub fn try_unifrom_struct(item: &str) -> (r: Option<String>)
    ensures
        r is Some <==> fields_have_types(item@),
        r matches Some(text) ==> text@ == uniform_source(item@),
{
    let ghost toks = split_on(item@, ',');
    let ranges = split_ranges(item, ',');
    let k = ranges.len();
    let mut i: usize = 1;
    while i < k
        invariant
            k == ranges.len(),
            k == toks.len(),
            toks == split_on(item@, ','),
            forall|j: int| 0 <= j < ranges.len() ==> {
                &&& (#[trigger] ranges@[j]).0 <= ranges@[j].1 <= item@.len()
                &&& item@.subrange(ranges@[j].0 as int, ranges@[j].1 as int) == toks[j]
            },
            1 <= i,
            k >= 1 ==> i <= k,
            forall|j: int| 1 <= j < i && j < k ==> split_on(#[trigger] toks[j], ':').len() >= 2,
        decreases k - i,
    {
        let tok = item.substring_char(ranges[i].0, ranges[i].1);
        let pieces = split_ranges(tok, ':');
        if pieces.len() < 2 {
            assert(split_on(toks[i as int], ':').len() < 2);
            return None;
        }
        i += 1;
    }
    Some(unifrom_struct(item))
}

/// The declaration line of field `tok` (`name : type`): `    pub name : T`
/// with `T` the Rust type of the shader type, on a line of its own.
pub open spec fn declared_field(tok: Seq<char>) -> Seq<char> {
    let p = split_on(tok, ':');
    "    pub "@ + trim(p[0]) + " : "@ + rust_type(trim(p[1])) + "\n"@
}

/// One declaration line for each field token, in order.
pub open spec fn declared_fields(toks: Seq<Seq<char>>) -> Seq<Seq<char>> {
    toks.map_values(|t: Seq<char>| declared_field(t))
}

proof fn lemma_rust_fields_flatten(toks: Seq<Seq<char>>)
    ensures
        rust_fields(toks) == declared_fields(toks).flatten(),
    decreases toks.len(),
{
    if toks.len() > 0 {
        lemma_rust_fields_flatten(toks.drop_last());
        assert(declared_fields(toks) =~= declared_fields(toks.drop_last()).push(declared_field(toks.last())));
        declared_fields(toks.drop_last()).lemma_flatten_push(declared_field(toks.last()));
    } else {
        assert(declared_fields(toks) =~= Seq::<Seq<char>>::empty());
    }
}

/// The generated Rust struct declares every field of `item` and nothing
/// else: after its header comes one `    pub name : type` line per field
/// token, in the order given, whatever their number, and then the closing
/// brace.
pub proof fn law_struct_declares_every_field(item: Seq<char>, r: Seq<char>)
    requires
        r == uniform_source(item),
    ensures
        ({
            let toks = split_on(item, ',');
            let head = "#[derive(ShaderType)]\n"@ + "pub struct "@ + toks[0] + " {\n"@
                + declared_fields(toks.drop_first()).flatten() + "}\n"@;
            &&& head.len() <= r.len()
            &&& r.take(head.len() as int) == head
        }),
{
    let toks = split_on(item, ',');
    lemma_rust_fields_flatten(toks.drop_first());
    let head = "#[derive(ShaderType)]\n"@ + "pub struct "@ + toks[0] + " {\n"@
        + declared_fields(toks.drop_first()).flatten() + "}\n"@;
    let name = trim(toks[0]);
    let rest = "\n"@ + "impl ShaderUniform for "@ + name + " {\n"@ + "fn get_name(&self) -> String {\n"@
        + "\""@ + name + "\".to_string()\n"@ + "}\n"@ + "fn get_struct(&self) -> String {\n"@
        + "\""@ + without_newlines(shader_struct(item)) + "\".to_string()\n"@ + "}\n"@ + "}"@;
    assert(r =~= head + rest);
    assert((head + rest).take(head.len() as int) =~= head);
}

/// Field `tok` (`name : type`) as it is declared in WGSL: `name : T` with
/// `T` the WGSL type of the shader type.
pub open spec fn declared_member(tok: Seq<char>) -> Seq<char> {
    let p = split_on(tok, ':');
    trim(p[0]) + " : "@ + wgsl_type(trim(p[1]))
}

/// One WGSL member for each field token, in order, each after the first
/// preceded by `, `.
pub open spec fn declared_members(toks: Seq<Seq<char>>) -> Seq<Seq<char>> {
    Seq::new(toks.len(), |i: int| if i == 0 { declared_member(toks[i]) } else { ", "@ + declared_member(toks[i]) })
}

proof fn lemma_wgsl_fields_flatten(toks: Seq<Seq<char>>)
    ensures
        wgsl_fields(toks) == declared_members(toks).flatten(),
    decreases toks.len(),
{
    if toks.len() > 0 {
        lemma_wgsl_fields_flatten(toks.drop_last());
        let last = if toks.len() == 1 { declared_member(toks.last()) } else { ", "@ + declared_member(toks.last()) };
        assert(declared_members(toks) =~= declared_members(toks.drop_last()).push(last));
        declared_members(toks.drop_last()).lemma_flatten_push(last);
        if toks.len() == 1 {
            assert(declared_members(toks.drop_last()) =~= Seq::<Seq<char>>::empty());
            assert(toks[0] == toks.last());
            assert(wgsl_fields(toks) =~= declared_members(toks).flatten());
        } else {
            assert(wgsl_fields(toks) =~= declared_members(toks).flatten());
        }
    } else {
        assert(declared_members(toks) =~= Seq::<Seq<char>>::empty());
    }
}

/// The WGSL declaration that the generated impl hands out declares every
/// field of `item` and nothing else: `struct Name {`, one `name : type`
/// member per field token in the order given, separated by `, `, then `}`,
/// all on one line; it ends the generated text.
pub proof fn law_shader_declares_every_field(item: Seq<char>, r: Seq<char>)
    requires
        r == uniform_source(item),
    ensures
        ({
            let toks = split_on(item, ',');
            let decl = "struct "@ + trim(toks[0]) + " {"@ + declared_members(toks.drop_first()).flatten() + "}\n"@;
            let tail = "\""@ + without_newlines(decl) + "\".to_string()\n"@ + "}\n"@ + "}"@;
            &&& tail.len() <= r.len()
            &&& r.skip(r.len() - tail.len()) == tail
        }),
{
    let toks = split_on(item, ',');
    lemma_wgsl_fields_flatten(toks.drop_first());
    let decl = "struct "@ + trim(toks[0]) + " {"@ + declared_members(toks.drop_first()).flatten() + "}\n"@;
    assert(decl == shader_struct(item));
    let tail = "\""@ + without_newlines(decl) + "\".to_string()\n"@ + "}\n"@ + "}"@;
    let name = trim(toks[0]);
    let front = "#[derive(ShaderType)]\n"@ + "pub struct "@ + toks[0] + " {\n"@ + rust_fields(toks.drop_first()) + "}\n"@
        + "\n"@ + "impl ShaderUniform for "@ + name + " {\n"@ + "fn get_name(&self) -> String {\n"@
        + "\""@ + name + "\".to_string()\n"@ + "}\n"@ + "fn get_struct(&self) -> String {\n"@;
    assert(r =~= front + tail);
    assert((front + tail).skip(front.len() as int) =~= tail);
}

} // verus!
