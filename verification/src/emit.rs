//! The code emitter: walks a validated app and renders C text implementing
//! a storage struct, a defaulting initializer, and a dispatch-based parser,
//! all namespaced under the app's name. Definitions sit behind a compilation
//! guard so that exactly one translation unit receives them.

use vstd::prelude::*;
use crate::schema::{App, AppV, Flag, FlagV, Positional, PositionalV, flag_help_view};
use crate::types::{ValueType, c_type_view, c_default_view, type_tag_view};
use crate::types::{c_type_of, c_default_of, type_tag_of};

verus! {

/// One struct field declaration: two-space indent, storage type, the fixed
/// `f_` prefix, the entry's name.
pub open spec fn field_line(name: Seq<char>, ct: Seq<char>) -> Seq<char> {
    "  "@ + ct + " f_"@ + name + ";\n"@
}

/// The field declaration of a flag.
pub open spec fn flag_field_line(f: FlagV) -> Seq<char> {
    field_line(f.name, c_type_view(f.ty, f.multiple))
}

/// The field declaration of a positional.
pub open spec fn pos_field_line(p: PositionalV) -> Seq<char> {
    field_line(p.name, c_type_view(p.ty, p.multiple))
}

/// The struct fields, one per flag in flags order, then one per positional
/// in positionals order.
pub open spec fn field_lines(app: AppV) -> Seq<Seq<char>> {
    app.flags.map_values(|f: FlagV| flag_field_line(f)) + app.positionals.map_values(
        |p: PositionalV| pos_field_line(p),
    )
}

/// The storage struct declaration.
pub open spec fn struct_text(app: AppV) -> Seq<char> {
    "struct "@ + app.name + "_config {\n"@ + field_lines(app).flatten() + "};\n\n"@
}

/// The initializer prototype, without the trailing `;`.
pub open spec fn init_proto(app: AppV) -> Seq<char> {
    "void "@ + app.name + "_config_init(struct "@ + app.name + "_config *cfg)"@
}

/// The parser prototype, without the trailing `;`.
pub open spec fn parse_proto(app: AppV) -> Seq<char> {
    "void "@ + app.name + "_config_parse(struct "@ + app.name
        + "_config *cfg, int argc, char **argv)"@
}

/// The forward declaration of the per-(app, flag) conversion function, named
/// by app, flag, and canonical type tag; its definition is left to
/// hand-written code linked against the output.
pub open spec fn conv_decl_line(app_name: Seq<char>, f: FlagV) -> Seq<char> {
    "void "@ + app_name + "_parse_"@ + f.name + "_"@ + type_tag_view(f.ty, f.multiple) + "("@
        + c_type_view(f.ty, f.multiple) + " *out, char const *arg);\n"@
}

/// The conversion-function declarations, one per flag in flags order.
pub open spec fn conv_decl_lines(app: AppV) -> Seq<Seq<char>> {
    app.flags.map_values(|f: FlagV| conv_decl_line(app.name, f))
}

/// The first entry of the help array: app name, and the version if present.
pub open spec fn title_line(app: AppV) -> Seq<char> {
    "  \""@ + app.name + (match app.version {
        Some(v) => " "@ + v,
        None => ""@,
    }) + "\",\n"@
}

/// The optional second entry of the help array: the about text.
pub open spec fn about_lines(app: AppV) -> Seq<char> {
    match app.about {
        Some(a) => "  \""@ + a + "\",\n"@,
        None => ""@,
    }
}

/// One help array entry per flag: its usage line, quoted.
pub open spec fn help_line(f: FlagV) -> Seq<char> {
    "  \""@ + flag_help_view(f) + "\",\n"@
}

/// The help array entries of the flags, in flags order.
pub open spec fn help_lines(app: AppV) -> Seq<Seq<char>> {
    app.flags.map_values(|f: FlagV| help_line(f))
}

/// The help array definition.
pub open spec fn help_text(app: AppV) -> Seq<char> {
    "char const *"@ + app.name + "_help[] = {\n"@ + title_line(app) + about_lines(app)
        + help_lines(app).flatten() + "};\n\n"@
}

/// The literal assigned to an entry by the initializer: the verbatim
/// explicit default if present, the type system's default otherwise.
pub open spec fn init_literal(ty: ValueType, multiple: bool, default: Option<Seq<char>>) -> Seq<
    char,
> {
    match default {
        Some(d) => d,
        None => c_default_view(ty, multiple),
    }
}

/// The initializer assignment for a flag.
pub open spec fn flag_init_line(f: FlagV) -> Seq<char> {
    "  cfg->f_"@ + f.name + " = "@ + init_literal(f.ty, f.multiple, f.default) + ";\n"@
}

/// The initializer assignment for a positional, which has no explicit
/// default.
pub open spec fn pos_init_line(p: PositionalV) -> Seq<char> {
    "  cfg->f_"@ + p.name + " = "@ + c_default_view(p.ty, p.multiple) + ";\n"@
}

/// The initializer assignments, one per flag then one per positional, in
/// declaration order.
pub open spec fn init_lines(app: AppV) -> Seq<Seq<char>> {
    app.flags.map_values(|f: FlagV| flag_init_line(f)) + app.positionals.map_values(
        |p: PositionalV| pos_init_line(p),
    )
}

/// The initializer definition.
pub open spec fn init_def(app: AppV) -> Seq<char> {
    init_proto(app) + " {\n"@ + init_lines(app).flatten() + "}\n\n"@
}

/// The dispatch test for one flag: a length-bounded comparison of the token
/// against `-` plus the flag's name, forwarding to the conversion function
/// on the first match in declaration order.
pub open spec fn dispatch_block(app_name: Seq<char>, f: FlagV) -> Seq<char> {
    "    if (strncmp(argv[i], \"-"@ + f.name + "\", sizeof \"-"@ + f.name
        + "\" - 1) == 0) {\n      "@ + app_name + "_parse_"@ + f.name + "_"@ + type_tag_view(
        f.ty,
        f.multiple,
    ) + "(&cfg->f_"@ + f.name + ", argv[i]);\n      continue;\n    }\n"@
}

/// The dispatch tests, one per flag in declaration order: earlier flags
/// shadow later ones on ambiguous token matches.
pub open spec fn dispatch_blocks(app: AppV) -> Seq<Seq<char>> {
    app.flags.map_values(|f: FlagV| dispatch_block(app.name, f))
}

/// The parser definition: apply defaults, then scan the argument vector
/// from index 1, dispatching recognized tokens.
pub open spec fn parse_def(app: AppV) -> Seq<char> {
    parse_proto(app) + " {\n  "@ + app.name
        + "_config_init(cfg);\n  for (int i = 1; i < argc; i++) {\n"@ + dispatch_blocks(
        app,
    ).flatten() + "  }\n}\n"@
}

/// The complete rendered output for an app.
pub open spec fn render_view(app: AppV) -> Seq<char> {
    struct_text(app) + init_proto(app) + ";\n"@ + parse_proto(app) + ";\n\n"@ + conv_decl_lines(
        app,
    ).flatten() + "\n#ifdef "@ + app.name + "_IMPLEMENTATION\n"@ + help_text(app) + init_def(app)
        + parse_def(app) + "#endif\n"@
}

fn emit_flag_field_line(f: &Flag) -> (r: String)
    ensures
        r@ == flag_field_line(f@),
{
    let mut s = "  ".to_owned();
    let ct = c_type_of(f.value_type, f.multiple);
    s.append(ct.as_str());
    s.append(" f_");
    s.append(f.name.as_str());
    s.append(";\n");
    s
}

fn emit_pos_field_line(p: &Positional) -> (r: String)
    ensures
        r@ == pos_field_line(p@),
{
    let mut s = "  ".to_owned();
    let ct = c_type_of(p.value_type, p.multiple);
    s.append(ct.as_str());
    s.append(" f_");
    s.append(p.name.as_str());
    s.append(";\n");
    s
}

fn emit_field_lines(app: &App) -> (r: String)
    ensures
        r@ == field_lines(app@).flatten(),
{
    let ghost lines = field_lines(app@);
    let ghost nf = app@.flags.len();
    let mut s = String::new();
    proof {
        assert(lines.take(0) =~= Seq::<Seq<char>>::empty());
        assert(lines.take(0).flatten() =~= Seq::<char>::empty());
    }
    let mut i: usize = 0;
    while i < app.flags.len()
        invariant
            i <= app.flags.len(),
            lines == field_lines(app@),
            nf == app@.flags.len(),
            app@.flags == app.flags@.map_values(|f: Flag| f@),
            app@.positionals == app.positionals@.map_values(|p: Positional| p@),
            lines.len() == app@.flags.len() + app@.positionals.len(),
            s@ == lines.take(i as int).flatten(),
        decreases app.flags@.len() - i,
    {
        let line = emit_flag_field_line(&app.flags[i]);
        proof {
            assert(lines[i as int] == flag_field_line(app@.flags[i as int]));
            assert(app@.flags[i as int] == app.flags@[i as int]@);
            lines.lemma_take_succ_push(i as int);
            lines.take(i as int).lemma_flatten_push(line@);
        }
        s.append(line.as_str());
        i = i + 1;
    }
    let mut j: usize = 0;
    while j < app.positionals.len()
        invariant
            j <= app.positionals.len(),
            lines == field_lines(app@),
            nf == app@.flags.len(),
            app@.flags == app.flags@.map_values(|f: Flag| f@),
            app@.positionals == app.positionals@.map_values(|p: Positional| p@),
            lines.len() == app@.flags.len() + app@.positionals.len(),
            s@ == lines.take(nf as int + j as int).flatten(),
        decreases app.positionals@.len() - j,
    {
        let ghost k = nf as int + j as int;
        let line = emit_pos_field_line(&app.positionals[j]);
        proof {
            assert(lines[k] == pos_field_line(app@.positionals[j as int]));
            assert(app@.positionals[j as int] == app.positionals@[j as int]@);
            lines.lemma_take_succ_push(k);
            lines.take(k).lemma_flatten_push(line@);
        }
        s.append(line.as_str());
        j = j + 1;
    }
    proof {
        assert(lines.take(nf as int + app@.positionals.len() as int) =~= lines);
    }
    s
}

fn emit_init_proto(app: &App) -> (r: String)
    ensures
        r@ == init_proto(app@),
{
    let mut s = "void ".to_owned();
    s.append(app.name.as_str());
    s.append("_config_init(struct ");
    s.append(app.name.as_str());
    s.append("_config *cfg)");
    s
}

fn emit_parse_proto(app: &App) -> (r: String)
    ensures
        r@ == parse_proto(app@),
{
    let mut s = "void ".to_owned();
    s.append(app.name.as_str());
    s.append("_config_parse(struct ");
    s.append(app.name.as_str());
    s.append("_config *cfg, int argc, char **argv)");
    s
}

fn emit_conv_decl_line(app_name: &String, f: &Flag) -> (r: String)
    ensures
        r@ == conv_decl_line(app_name@, f@),
{
    let mut s = "void ".to_owned();
    s.append(app_name.as_str());
    s.append("_parse_");
    s.append(f.name.as_str());
    s.append("_");
    let tag = type_tag_of(f.value_type, f.multiple);
    s.append(tag.as_str());
    s.append("(");
    let ct = c_type_of(f.value_type, f.multiple);
    s.append(ct.as_str());
    s.append(" *out, char const *arg);\n");
    s
}

fn emit_conv_decl_lines(app: &App) -> (r: String)
    ensures
        r@ == conv_decl_lines(app@).flatten(),
{
    let ghost lines = conv_decl_lines(app@);
    let mut s = String::new();
    proof {
        assert(lines.take(0) =~= Seq::<Seq<char>>::empty());
        assert(lines.take(0).flatten() =~= Seq::<char>::empty());
    }
    let mut i: usize = 0;
    while i < app.flags.len()
        invariant
            i <= app.flags.len(),
            lines == conv_decl_lines(app@),
            app@.flags == app.flags@.map_values(|f: Flag| f@),
            app@.name == app.name@,
            lines.len() == app@.flags.len(),
            s@ == lines.take(i as int).flatten(),
        decreases app.flags@.len() - i,
    {
        let line = emit_conv_decl_line(&app.name, &app.flags[i]);
        proof {
            assert(lines[i as int] == conv_decl_line(app@.name, app@.flags[i as int]));
            assert(app@.flags[i as int] == app.flags@[i as int]@);
            lines.lemma_take_succ_push(i as int);
            lines.take(i as int).lemma_flatten_push(line@);
        }
        s.append(line.as_str());
        i = i + 1;
    }
    proof {
        assert(lines.take(app@.flags.len() as int) =~= lines);
    }
    s
}

fn emit_title_line(app: &App) -> (r: String)
    ensures
        r@ == title_line(app@),
{
    let mut s = "  \"".to_owned();
    s.append(app.name.as_str());
    let vpart: String = match &app.version {
        Some(v) => {
            let mut t = " ".to_owned();
            t.append(v.as_str());
            t
        },
        None => "".to_owned(),
    };
    s.append(vpart.as_str());
    s.append("\",\n");
    s
}

fn emit_about_lines(app: &App) -> (r: String)
    ensures
        r@ == about_lines(app@),
{
    match &app.about {
        Some(a) => {
            let mut s = "  \"".to_owned();
            s.append(a.as_str());
            s.append("\",\n");
            s
        },
        None => "".to_owned(),
    }
}

fn emit_help_line(f: &Flag) -> (r: String)
    ensures
        r@ == help_line(f@),
{
    let mut s = "  \"".to_owned();
    let usage = f.flag_help();
    s.append(usage.as_str());
    s.append("\",\n");
    s
}

fn emit_help_lines(app: &App) -> (r: String)
    ensures
        r@ == help_lines(app@).flatten(),
{
    let ghost lines = help_lines(app@);
    let mut s = String::new();
    proof {
        assert(lines.take(0) =~= Seq::<Seq<char>>::empty());
        assert(lines.take(0).flatten() =~= Seq::<char>::empty());
    }
    let mut i: usize = 0;
    while i < app.flags.len()
        invariant
            i <= app.flags.len(),
            lines == help_lines(app@),
            app@.flags == app.flags@.map_values(|f: Flag| f@),
            lines.len() == app@.flags.len(),
            s@ == lines.take(i as int).flatten(),
        decreases app.flags@.len() - i,
    {
        let line = emit_help_line(&app.flags[i]);
        proof {
            assert(lines[i as int] == help_line(app@.flags[i as int]));
            assert(app@.flags[i as int] == app.flags@[i as int]@);
            lines.lemma_take_succ_push(i as int);
            lines.take(i as int).lemma_flatten_push(line@);
        }
        s.append(line.as_str());
        i = i + 1;
    }
    proof {
        assert(lines.take(app@.flags.len() as int) =~= lines);
    }
    s
}

fn emit_help_text(app: &App) -> (r: String)
    ensures
        r@ == help_text(app@),
{
    let mut s = "char const *".to_owned();
    s.append(app.name.as_str());
    s.append("_help[] = {\n");
    let title = emit_title_line(app);
    s.append(title.as_str());
    let about = emit_about_lines(app);
    s.append(about.as_str());
    let entries = emit_help_lines(app);
    s.append(entries.as_str());
    s.append("};\n\n");
    s
}

fn emit_flag_init_line(f: &Flag) -> (r: String)
    ensures
        r@ == flag_init_line(f@),
{
    let mut s = "  cfg->f_".to_owned();
    s.append(f.name.as_str());
    s.append(" = ");
    let lit: String = match &f.default {
        Some(d) => d.clone(),
        None => c_default_of(f.value_type, f.multiple),
    };
    s.append(lit.as_str());
    s.append(";\n");
    s
}

fn emit_pos_init_line(p: &Positional) -> (r: String)
    ensures
        r@ == pos_init_line(p@),
{
    let mut s = "  cfg->f_".to_owned();
    s.append(p.name.as_str());
    s.append(" = ");
    let lit = c_default_of(p.value_type, p.multiple);
    s.append(lit.as_str());
    s.append(";\n");
    s
}

fn emit_init_lines(app: &App) -> (r: String)
    ensures
        r@ == init_lines(app@).flatten(),
{
    let ghost lines = init_lines(app@);
    let ghost nf = app@.flags.len();
    let mut s = String::new();
    proof {
        assert(lines.take(0) =~= Seq::<Seq<char>>::empty());
        assert(lines.take(0).flatten() =~= Seq::<char>::empty());
    }
    let mut i: usize = 0;
    while i < app.flags.len()
        invariant
            i <= app.flags.len(),
            lines == init_lines(app@),
            nf == app@.flags.len(),
            app@.flags == app.flags@.map_values(|f: Flag| f@),
            app@.positionals == app.positionals@.map_values(|p: Positional| p@),
            lines.len() == app@.flags.len() + app@.positionals.len(),
            s@ == lines.take(i as int).flatten(),
        decreases app.flags@.len() - i,
    {
        let line = emit_flag_init_line(&app.flags[i]);
        proof {
            assert(lines[i as int] == flag_init_line(app@.flags[i as int]));
            assert(app@.flags[i as int] == app.flags@[i as int]@);
            lines.lemma_take_succ_push(i as int);
            lines.take(i as int).lemma_flatten_push(line@);
        }
        s.append(line.as_str());
        i = i + 1;
    }
    let mut j: usize = 0;
    while j < app.positionals.len()
        invariant
            j <= app.positionals.len(),
            lines == init_lines(app@),
            nf == app@.flags.len(),
            app@.flags == app.flags@.map_values(|f: Flag| f@),
            app@.positionals == app.positionals@.map_values(|p: Positional| p@),
            lines.len() == app@.flags.len() + app@.positionals.len(),
            s@ == lines.take(nf as int + j as int).flatten(),
        decreases app.positionals@.len() - j,
    {
        let ghost k = nf as int + j as int;
        let line = emit_pos_init_line(&app.positionals[j]);
        proof {
            assert(lines[k] == pos_init_line(app@.positionals[j as int]));
            assert(app@.positionals[j as int] == app.positionals@[j as int]@);
            lines.lemma_take_succ_push(k);
            lines.take(k).lemma_flatten_push(line@);
        }
        s.append(line.as_str());
        j = j + 1;
    }
    proof {
        assert(lines.take(nf as int + app@.positionals.len() as int) =~= lines);
    }
    s
}

fn emit_init_def(app: &App) -> (r: String)
    ensures
        r@ == init_def(app@),
{
    let mut s = emit_init_proto(app);
    s.append(" {\n");
    let body = emit_init_lines(app);
    s.append(body.as_str());
    s.append("}\n\n");
    s
}

fn emit_dispatch_block(app_name: &String, f: &Flag) -> (r: String)
    ensures
        r@ == dispatch_block(app_name@, f@),
{
    let mut s = "    if (strncmp(argv[i], \"-".to_owned();
    s.append(f.name.as_str());
    s.append("\", sizeof \"-");
    s.append(f.name.as_str());
    s.append("\" - 1) == 0) {\n      ");
    s.append(app_name.as_str());
    s.append("_parse_");
    s.append(f.name.as_str());
    s.append("_");
    let tag = type_tag_of(f.value_type, f.multiple);
    s.append(tag.as_str());
    s.append("(&cfg->f_");
    s.append(f.name.as_str());
    s.append(", argv[i]);\n      continue;\n    }\n");
    s
}

fn emit_dispatch_blocks(app: &App) -> (r: String)
    ensures
        r@ == dispatch_blocks(app@).flatten(),
{
    let ghost lines = dispatch_blocks(app@);
    let mut s = String::new();
    proof {
        assert(lines.take(0) =~= Seq::<Seq<char>>::empty());
        assert(lines.take(0).flatten() =~= Seq::<char>::empty());
    }
    let mut i: usize = 0;
    while i < app.flags.len()
        invariant
            i <= app.flags.len(),
            lines == dispatch_blocks(app@),
            app@.flags == app.flags@.map_values(|f: Flag| f@),
            app@.name == app.name@,
            lines.len() == app@.flags.len(),
            s@ == lines.take(i as int).flatten(),
        decreases app.flags@.len() - i,
    {
        let line = emit_dispatch_block(&app.name, &app.flags[i]);
        proof {
            assert(lines[i as int] == dispatch_block(app@.name, app@.flags[i as int]));
            assert(app@.flags[i as int] == app.flags@[i as int]@);
            lines.lemma_take_succ_push(i as int);
            lines.take(i as int).lemma_flatten_push(line@);
        }
        s.append(line.as_str());
        i = i + 1;
    }
    proof {
        assert(lines.take(app@.flags.len() as int) =~= lines);
    }
    s
}

fn emit_parse_def(app: &App) -> (r: String)
    ensures
        r@ == parse_def(app@),
{
    let mut s = emit_parse_proto(app);
    s.append(" {\n  ");
    s.append(app.name.as_str());
    s.append("_config_init(cfg);\n  for (int i = 1; i < argc; i++) {\n");
    let body = emit_dispatch_blocks(app);
    s.append(body.as_str());
    s.append("  }\n}\n");
    s
}

impl App {
    /// Render the complete output text for this app. The result is a pure
    /// function of the schema: equal schemas render byte-identically.
    pub fn render(&self) -> (r: String)
        ensures
            r@ == render_view(self@),
    {
        let mut s = emit_struct(self);
        let ip = emit_init_proto(self);
        s.append(ip.as_str());
        s.append(";\n");
        let pp = emit_parse_proto(self);
        s.append(pp.as_str());
        s.append(";\n\n");
        let convs = emit_conv_decl_lines(self);
        s.append(convs.as_str());
        s.append("\n#ifdef ");
        s.append(self.name.as_str());
        s.append("_IMPLEMENTATION\n");
        let help = emit_help_text(self);
        s.append(help.as_str());
        let init = emit_init_def(self);
        s.append(init.as_str());
        let parse = emit_parse_def(self);
        s.append(parse.as_str());
        s.append("#endif\n");
        s
    }
}

fn emit_struct(app: &App) -> (r: String)
    ensures
        r@ == struct_text(app@),
{
    let mut s = "struct ".to_owned();
    s.append(app.name.as_str());
    s.append("_config {\n");
    let body = emit_field_lines(app);
    s.append(body.as_str());
    s.append("};\n\n");
    s
}

/// The struct layout law: one field per flag, then one per positional, in
/// declaration order, each field typed by the type system's mapping for the
/// entry's (value type, cardinality) pair.
pub proof fn lemma_struct_field_layout(app: AppV)
    ensures
        field_lines(app).len() == app.flags.len() + app.positionals.len(),
        forall|i: int|
            0 <= i < app.flags.len() ==> field_lines(app)[i] == field_line(
                app.flags[i].name,
                c_type_view(app.flags[i].ty, app.flags[i].multiple),
            ),
        forall|j: int|
            0 <= j < app.positionals.len() ==> field_lines(app)[app.flags.len() + j] == field_line(
                app.positionals[j].name,
                c_type_view(app.positionals[j].ty, app.positionals[j].multiple),
            ),
{
}

/// The default-literal law: the literal assigned by the initializer depends
/// only on the entry's value type, its cardinality and its explicit default,
/// never on declaration order or sibling entries.
pub proof fn lemma_init_literal_local(a: AppV, b: AppV, i: int, j: int)
    requires
        0 <= i < a.flags.len(),
        0 <= j < b.flags.len(),
        a.flags[i].ty == b.flags[j].ty,
        a.flags[i].multiple == b.flags[j].multiple,
        a.flags[i].default == b.flags[j].default,
    ensures
        init_literal(a.flags[i].ty, a.flags[i].multiple, a.flags[i].default) == init_literal(
            b.flags[j].ty,
            b.flags[j].multiple,
            b.flags[j].default,
        ),
{
}

/// The determinism law behind idempotent rendering: the output is a function
/// of the schema alone, so rendering the same schema twice, in one process
/// or across invocations, yields byte-identical text.
pub proof fn lemma_render_deterministic(a: AppV, b: AppV)
    requires
        a == b,
    ensures
        render_view(a) == render_view(b),
{
}

} // verus!
