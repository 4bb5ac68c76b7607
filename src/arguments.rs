//! Evaluation of declarative argument lists and placeholder substitution.
use vstd::prelude::*;
use crate::manifest::{Argument, ManifestLayer};
use crate::rules::{check_rules, gate_allows, RuleContext};
use crate::text::{cat, chars_of, contains, decimal, decimal_string, first_index, index_of, is_prefix, joined, join, replace_all, replaced, slice_string, split_whitespace, str_contains, str_eq, trim, trimmed, views, words};

verus! {

/// The strings one argument entry contributes on the host.
pub open spec fn argument_values(a: Argument, ctx: RuleContext) -> Seq<Seq<char>> {
    match a {
        Argument::Literal(s) => seq![s@],
        Argument::Conditional { rules, values } => if gate_allows(rules, ctx) {
            views(values@)
        } else {
            Seq::empty()
        },
    }
}

/// The strings a list of entries contributes on the host, in order.
pub open spec fn evaluated(args: Seq<Argument>, ctx: RuleContext) -> Seq<Seq<char>>
    decreases args.len(),
{
    if args.len() == 0 {
        Seq::empty()
    } else {
        evaluated(args.drop_last(), ctx) + argument_values(args.last(), ctx)
    }
}

/// A layer's JVM arguments on the host.
pub open spec fn layer_jvm(m: ManifestLayer, ctx: RuleContext) -> Seq<Seq<char>> {
    match m.arguments {
        Some(a) => match a.jvm {
            Some(v) => evaluated(v@, ctx),
            None => Seq::empty(),
        },
        None => Seq::empty(),
    }
}

/// A layer's game arguments on the host: its modern list when it has argument
/// lists, else its legacy argument string split at white space.
pub open spec fn layer_game(m: ManifestLayer, ctx: RuleContext) -> Seq<Seq<char>> {
    match m.arguments {
        Some(a) => match a.game {
            Some(v) => evaluated(v@, ctx),
            None => Seq::empty(),
        },
        None => match m.minecraft_arguments {
            Some(s) => words(s@),
            None => Seq::empty(),
        },
    }
}

/// The JVM arguments of all layers, oldest layer first.
pub open spec fn chain_jvm(layers: Seq<ManifestLayer>, ctx: RuleContext) -> Seq<Seq<char>>
    decreases layers.len(),
{
    if layers.len() == 0 {
        Seq::empty()
    } else {
        chain_jvm(layers.drop_last(), ctx) + layer_jvm(layers.last(), ctx)
    }
}

/// The game arguments of all layers, oldest layer first.
pub open spec fn chain_game(layers: Seq<ManifestLayer>, ctx: RuleContext) -> Seq<Seq<char>>
    decreases layers.len(),
{
    if layers.len() == 0 {
        Seq::empty()
    } else {
        chain_game(layers.drop_last(), ctx) + layer_game(layers.last(), ctx)
    }
}

proof fn lemma_views_concat(a: Seq<String>, b: Seq<String>)
    ensures
        views(a + b) == views(a) + views(b),
{
    assert(views(a + b) =~= views(a) + views(b));
}

/// Appends `more` to `out`.
pub fn extend_strings(out: &mut Vec<String>, more: Vec<String>)
    ensures
        views(final(out)@) == views(old(out)@) + views(more@),
{
    let ghost a = out@;
    let ghost b = more@;
    let mut more = more;
    out.append(&mut more);
    proof {
        lemma_views_concat(a, b);
    }
}

fn copy_strings(v: &Vec<String>) -> (r: Vec<String>)
    ensures
        views(r@) == views(v@),
{
    let mut r: Vec<String> = Vec::new();
    let mut i: usize = 0;
    while i < v.len()
        invariant
            i <= v@.len(),
            views(r@) == views(v@.subrange(0, i as int)),
        decreases v@.len() - i,
    {
        let ghost before = r@;
        let c = v[i].clone();
        r.push(c);
        assert(r@ == before.push(c));
        assert(views(r@) =~= views(before).push(v@[i as int]@));
        assert(views(r@) =~= views(v@.subrange(0, i + 1)));
        i += 1;
    }
    assert(v@.subrange(0, i as int) =~= v@);
    r
}

/// Evaluates one argument list on the host.
pub fn evaluate_arguments(args: &Vec<Argument>, ctx: &RuleContext) -> (r: Vec<String>)
    ensures
        views(r@) == evaluated(args@, *ctx),
{
    let mut out: Vec<String> = Vec::new();
    let mut i: usize = 0;
    assert(args@.subrange(0, 0) =~= Seq::<Argument>::empty());
    assert(views(out@) =~= Seq::<Seq<char>>::empty());
    while i < args.len()
        invariant
            i <= args@.len(),
            views(out@) == evaluated(args@.subrange(0, i as int), *ctx),
        decreases args@.len() - i,
    {
        let ghost next = args@.subrange(0, i + 1);
        assert(next.drop_last() =~= args@.subrange(0, i as int));
        assert(next.last() == args@[i as int]);
        match &args[i] {
            Argument::Literal(s) => {
                let mut one: Vec<String> = Vec::new();
                one.push(s.clone());
                assert(views(one@) =~= seq![s@]);
                extend_strings(&mut out, one);
            },
            Argument::Conditional { rules, values } => {
                if check_rules(rules, ctx) {
                    let more = copy_strings(values);
                    extend_strings(&mut out, more);
                } else {
                    assert(views(out@) =~= views(out@) + Seq::<Seq<char>>::empty());
                }
            },
        }
        i += 1;
    }
    assert(args@.subrange(0, i as int) =~= args@);
    out
}

/// The JVM arguments of one layer on the host.
pub fn layer_jvm_arguments(m: &ManifestLayer, ctx: &RuleContext) -> (r: Vec<String>)
    ensures
        views(r@) == layer_jvm(*m, *ctx),
{
    match &m.arguments {
        Some(a) => match &a.jvm {
            Some(v) => evaluate_arguments(v, ctx),
            None => {
                let r: Vec<String> = Vec::new();
                assert(views(r@) =~= Seq::<Seq<char>>::empty());
                r
            },
        },
        None => {
            let r: Vec<String> = Vec::new();
            assert(views(r@) =~= Seq::<Seq<char>>::empty());
            r
        },
    }
}

/// The game arguments of one layer on the host.
pub fn layer_game_arguments(m: &ManifestLayer, ctx: &RuleContext) -> (r: Vec<String>)
    ensures
        views(r@) == layer_game(*m, *ctx),
{
    match &m.arguments {
        Some(a) => match &a.game {
            Some(v) => evaluate_arguments(v, ctx),
            None => {
                let r: Vec<String> = Vec::new();
                assert(views(r@) =~= Seq::<Seq<char>>::empty());
                r
            },
        },
        None => match &m.minecraft_arguments {
            Some(s) => split_whitespace(s.as_str()),
            None => {
                let r: Vec<String> = Vec::new();
                assert(views(r@) =~= Seq::<Seq<char>>::empty());
                r
            },
        },
    }
}

/// The JVM arguments of all layers on the host, oldest layer first.
pub fn chain_jvm_arguments(layers: &Vec<ManifestLayer>, ctx: &RuleContext) -> (r: Vec<String>)
    ensures
        views(r@) == chain_jvm(layers@, *ctx),
{
    let mut out: Vec<String> = Vec::new();
    let mut i: usize = 0;
    assert(layers@.subrange(0, 0) =~= Seq::<ManifestLayer>::empty());
    assert(views(out@) =~= Seq::<Seq<char>>::empty());
    while i < layers.len()
        invariant
            i <= layers@.len(),
            views(out@) == chain_jvm(layers@.subrange(0, i as int), *ctx),
        decreases layers@.len() - i,
    {
        let ghost next = layers@.subrange(0, i + 1);
        assert(next.drop_last() =~= layers@.subrange(0, i as int));
        assert(next.last() == layers@[i as int]);
        let more = layer_jvm_arguments(&layers[i], ctx);
        extend_strings(&mut out, more);
        i += 1;
    }
    assert(layers@.subrange(0, i as int) =~= layers@);
    out
}

/// The game arguments of all layers on the host, oldest layer first.
pub fn chain_game_arguments(layers: &Vec<ManifestLayer>, ctx: &RuleContext) -> (r: Vec<String>)
    ensures
        views(r@) == chain_game(layers@, *ctx),
{
    let mut out: Vec<String> = Vec::new();
    let mut i: usize = 0;
    assert(layers@.subrange(0, 0) =~= Seq::<ManifestLayer>::empty());
    assert(views(out@) =~= Seq::<Seq<char>>::empty());
    while i < layers.len()
        invariant
            i <= layers@.len(),
            views(out@) == chain_game(layers@.subrange(0, i as int), *ctx),
        decreases layers@.len() - i,
    {
        let ghost next = layers@.subrange(0, i + 1);
        assert(next.drop_last() =~= layers@.subrange(0, i as int));
        assert(next.last() == layers@[i as int]);
        let more = layer_game_arguments(&layers[i], ctx);
        extend_strings(&mut out, more);
        i += 1;
    }
    assert(layers@.subrange(0, i as int) =~= layers@);
    out
}

/// A JVM argument with `-Dkey= value ` normalised to `-Dkey=value`.
pub open spec fn property_fixed(r: Seq<char>) -> Seq<char> {
    if is_prefix("-D"@, r) && first_index(r, '=') >= 0 {
        let i = first_index(r, '=');
        r.subrange(0, i) + "="@ + trimmed(r.subrange(i + 1, r.len() as int))
    } else {
        r
    }
}

/// A JVM argument with its placeholders filled in.
pub open spec fn fill_jvm(a: Seq<char>, natives: Seq<char>, libdir: Seq<char>, cp: Seq<char>, sep: Seq<char>, version: Seq<char>) -> Seq<char> {
    let r1 = replaced(a, "${natives_directory}"@, natives);
    let r2 = replaced(r1, "${library_directory}"@, libdir);
    let r3 = replaced(r2, "${launcher_name}"@, "AnchorMCLuncher"@);
    let r4 = replaced(r3, "${launcher_version}"@, "1.0"@);
    let r5 = replaced(r4, "${classpath}"@, cp);
    let r6 = replaced(r5, "${classpath_separator}"@, sep);
    let r7 = replaced(r6, "${version_name}"@, version);
    let r8 = replaced(r7, "${version_type}"@, "release"@);
    property_fixed(r8)
}

fn fix_property(r: String) -> (out: String)
    ensures
        out@ == property_fixed(r@),
{
    if !crate::text::starts_with(r.as_str(), "-D") {
        return r;
    }
    let cs = chars_of(r.as_str());
    match index_of(&cs, '=') {
        None => r,
        Some(i) => {
            let key = slice_string(&cs, 0, i);
            let rest = slice_string(&cs, i + 1, cs.len());
            let val = trim(rest.as_str());
            let a = cat(key.as_str(), "=");
            cat(a.as_str(), val.as_str())
        },
    }
}

fn rep(s: String, p: &str, r: &str) -> (out: String)
    requires
        p@.len() > 0,
    ensures
        out@ == replaced(s@, p@, r@),
{
    replace_all(s.as_str(), p, r)
}

/// Fills in the placeholders of one JVM argument.
pub fn substitute_jvm(a: &str, natives: &str, libdir: &str, cp: &str, sep: &str, version: &str) -> (r: String)
    ensures
        r@ == fill_jvm(a@, natives@, libdir@, cp@, sep@, version@),
{
    proof {
        reveal_strlit("${natives_directory}");
        reveal_strlit("${library_directory}");
        reveal_strlit("${launcher_name}");
        reveal_strlit("${launcher_version}");
        reveal_strlit("${classpath}");
        reveal_strlit("${classpath_separator}");
        reveal_strlit("${version_name}");
        reveal_strlit("${version_type}");
    }
    let r1 = replace_all(a, "${natives_directory}", natives);
    let r2 = rep(r1, "${library_directory}", libdir);
    let r3 = rep(r2, "${launcher_name}", "AnchorMCLuncher");
    let r4 = rep(r3, "${launcher_version}", "1.0");
    let r5 = rep(r4, "${classpath}", cp);
    let r6 = rep(r5, "${classpath_separator}", sep);
    let r7 = rep(r6, "${version_name}", version);
    let r8 = rep(r7, "${version_type}", "release");
    fix_property(r8)
}

/// The values that fill the game arguments' placeholders.
pub struct GameValues {
    pub player: String,
    pub version: String,
    pub game_dir: String,
    pub assets_root: String,
    pub asset_index: String,
    pub uuid: String,
    pub access_token: String,
    pub user_type: String,
}

/// A game argument with the identity, path and authentication placeholders filled in.
pub open spec fn fill_game(a: Seq<char>, g: GameValues) -> Seq<char> {
    let r1 = replaced(a, "${auth_player_name}"@, g.player@);
    let r2 = replaced(r1, "${version_name}"@, g.version@);
    let r3 = replaced(r2, "${game_directory}"@, g.game_dir@);
    let r4 = replaced(r3, "${assets_root}"@, g.assets_root@);
    let r5 = replaced(r4, "${assets_index_name}"@, g.asset_index@);
    let r6 = replaced(r5, "${auth_uuid}"@, g.uuid@);
    let r7 = replaced(r6, "${auth_access_token}"@, g.access_token@);
    let r8 = replaced(r7, "${user_type}"@, g.user_type@);
    let r9 = replaced(r8, "${version_type}"@, "release"@);
    let r10 = replaced(r9, "${user_properties}"@, "{}"@);
    let r11 = replaced(r10, "${clientid}"@, "0"@);
    replaced(r11, "${auth_xuid}"@, "0"@)
}

/// A game argument with the window size filled in where one was given.
pub open spec fn fill_resolution(a: Seq<char>, w: Option<u32>, h: Option<u32>) -> Seq<char> {
    let a1 = match w {
        Some(x) => replaced(a, "${resolution_width}"@, decimal(x as nat)),
        None => a,
    };
    match h {
        Some(x) => replaced(a1, "${resolution_height}"@, decimal(x as nat)),
        None => a1,
    }
}

/// Whether a window-size placeholder is left.
pub open spec fn unresolved(a: Seq<char>) -> bool {
    contains(a, "${resolution_width}"@) || contains(a, "${resolution_height}"@)
}

/// The game arguments filled in, without those whose window size is unknown.
pub open spec fn processed_game(args: Seq<Seq<char>>, g: GameValues, w: Option<u32>, h: Option<u32>) -> Seq<Seq<char>>
    decreases args.len(),
{
    if args.len() == 0 {
        Seq::empty()
    } else {
        let prev = processed_game(args.drop_last(), g, w, h);
        let x = fill_resolution(fill_game(args.last(), g), w, h);
        if unresolved(x) {
            prev
        } else {
            prev.push(x)
        }
    }
}

fn fill_game_argument(a: &str, g: &GameValues) -> (r: String)
    ensures
        r@ == fill_game(a@, *g),
{
    proof {
        reveal_strlit("${auth_player_name}");
        reveal_strlit("${version_name}");
        reveal_strlit("${game_directory}");
        reveal_strlit("${assets_root}");
        reveal_strlit("${assets_index_name}");
        reveal_strlit("${auth_uuid}");
        reveal_strlit("${auth_access_token}");
        reveal_strlit("${user_type}");
        reveal_strlit("${version_type}");
        reveal_strlit("${user_properties}");
        reveal_strlit("${clientid}");
        reveal_strlit("${auth_xuid}");
    }
    let r1 = replace_all(a, "${auth_player_name}", g.player.as_str());
    let r2 = rep(r1, "${version_name}", g.version.as_str());
    let r3 = rep(r2, "${game_directory}", g.game_dir.as_str());
    let r4 = rep(r3, "${assets_root}", g.assets_root.as_str());
    let r5 = rep(r4, "${assets_index_name}", g.asset_index.as_str());
    let r6 = rep(r5, "${auth_uuid}", g.uuid.as_str());
    let r7 = rep(r6, "${auth_access_token}", g.access_token.as_str());
    let r8 = rep(r7, "${user_type}", g.user_type.as_str());
    let r9 = rep(r8, "${version_type}", "release");
    let r10 = rep(r9, "${user_properties}", "{}");
    let r11 = rep(r10, "${clientid}", "0");
    rep(r11, "${auth_xuid}", "0")
}

fn with_resolution(a: String, w: Option<u32>, h: Option<u32>) -> (r: String)
    ensures
        r@ == fill_resolution(a@, w, h),
{
    proof {
        reveal_strlit("${resolution_width}");
        reveal_strlit("${resolution_height}");
    }
    let a1 = match w {
        Some(x) => rep(a, "${resolution_width}", decimal_string(x as u64).as_str()),
        None => a,
    };
    match h {
        Some(x) => rep(a1, "${resolution_height}", decimal_string(x as u64).as_str()),
        None => a1,
    }
}

/// Fills in the game arguments and drops those whose window size is unknown.
pub fn process_game_arguments(args: &Vec<String>, g: &GameValues, w: Option<u32>, h: Option<u32>) -> (r: Vec<String>)
    ensures
        views(r@) == processed_game(views(args@), *g, w, h),
{
    let mut out: Vec<String> = Vec::new();
    let mut i: usize = 0;
    let ghost va = views(args@);
    assert(va.subrange(0, 0) =~= Seq::<Seq<char>>::empty());
    assert(views(out@) =~= Seq::<Seq<char>>::empty());
    while i < args.len()
        invariant
            i <= args@.len(),
            va == views(args@),
            views(out@) == processed_game(va.subrange(0, i as int), *g, w, h),
        decreases args@.len() - i,
    {
        let ghost next = va.subrange(0, i + 1);
        assert(next.drop_last() =~= va.subrange(0, i as int));
        assert(next.last() == args@[i as int]@);
        let filled = fill_game_argument(args[i].as_str(), g);
        let x = with_resolution(filled, w, h);
        proof {
            reveal_strlit("${resolution_width}");
            reveal_strlit("${resolution_height}");
        }
        if str_contains(x.as_str(), "${resolution_width}") || str_contains(x.as_str(), "${resolution_height}") {
        } else {
            let ghost before = out@;
            out.push(x);
            assert(views(out@) =~= views(before).push(x@));
        }
        i += 1;
    }
    assert(va.subrange(0, i as int) =~= va);
    out
}

/// The game arguments used when the manifests give none.
pub open spec fn fallback_game() -> Seq<Seq<char>> {
    seq![
        "--version"@, "${version_name}"@, "--gameDir"@, "${game_directory}"@,
        "--assetsDir"@, "${assets_root}"@, "--assetIndex"@, "${assets_index_name}"@,
        "--username"@, "${auth_player_name}"@, "--accessToken"@, "${auth_access_token}"@,
        "--uuid"@, "${auth_uuid}"@, "--userType"@, "${user_type}"@,
    ]
}

/// The layers' game arguments extended with the window size and the server to
/// join, each flag only where the layers do not declare it themselves; the
/// fallback list when empty.
pub open spec fn game_with_extras(args: Seq<Seq<char>>, w: Option<u32>, h: Option<u32>, ip: Option<Seq<char>>, port: Option<u16>) -> Seq<Seq<char>> {
    let a1 = match w {
        Some(x) => if args.contains("--width"@) { args } else { args + seq!["--width"@, decimal(x as nat)] },
        None => args,
    };
    let a2 = match h {
        Some(x) => if args.contains("--height"@) { a1 } else { a1 + seq!["--height"@, decimal(x as nat)] },
        None => a1,
    };
    let a3 = match ip {
        Some(s) => if args.contains("--server"@) { a2 } else { a2 + seq!["--server"@, s] },
        None => a2,
    };
    let a4 = match port {
        Some(p) => if args.contains("--port"@) { a3 } else { a3 + seq!["--port"@, decimal(p as nat)] },
        None => a3,
    };
    if a4.len() == 0 { fallback_game() } else { a4 }
}

/// The characters of an optional string.
pub open spec fn opt_view(o: Option<String>) -> Option<Seq<char>> {
    match o {
        Some(s) => Some(s@),
        None => None,
    }
}

/// Whether a list of strings holds `x`.
pub fn holds(v: &Vec<String>, x: &str) -> (r: bool)
    ensures
        r == views(v@).contains(x@),
{
    let mut i: usize = 0;
    while i < v.len()
        invariant
            i <= v@.len(),
            forall|j: int| 0 <= j < i ==> v@[j]@ != x@,
        decreases v@.len() - i,
    {
        if str_eq(v[i].as_str(), x) {
            assert(views(v@)[i as int] == x@);
            return true;
        }
        i += 1;
    }
    assert(!views(v@).contains(x@)) by {
        if views(v@).contains(x@) {
            let k = choose|k: int| 0 <= k < views(v@).len() && views(v@)[k] == x@;
            assert(v@[k]@ != x@);
        }
    }
    false
}

fn push_pair(out: &mut Vec<String>, a: &str, b: String)
    ensures
        views(final(out)@) == views(old(out)@) + seq![a@, b@],
{
    let ghost before = out@;
    out.push(a.to_owned());
    out.push(b);
    assert(views(out@) =~= views(before) + seq![a@, b@]);
}

/// Adds the window size, the server to join and, when nothing is left, the fallback list.
pub fn add_game_extras(args: Vec<String>, w: Option<u32>, h: Option<u32>, ip: &Option<String>, port: Option<u16>) -> (r: Vec<String>)
    ensures
        views(r@) == game_with_extras(views(args@), w, h, opt_view(*ip), port),
{
    let has_width = holds(&args, "--width");
    let has_height = holds(&args, "--height");
    let has_server = holds(&args, "--server");
    let has_port = holds(&args, "--port");
    let mut out = args;
    match w {
        Some(x) => if !has_width {
            push_pair(&mut out, "--width", decimal_string(x as u64));
        },
        None => {},
    }
    match h {
        Some(x) => if !has_height {
            push_pair(&mut out, "--height", decimal_string(x as u64));
        },
        None => {},
    }
    match ip {
        Some(s) => if !has_server {
            push_pair(&mut out, "--server", s.clone());
        },
        None => {},
    }
    match port {
        Some(p) => if !has_port {
            push_pair(&mut out, "--port", decimal_string(p as u64));
        },
        None => {},
    }
    if out.len() == 0 {
        let mut f: Vec<String> = Vec::new();
        push_pair(&mut f, "--version", "${version_name}".to_owned());
        push_pair(&mut f, "--gameDir", "${game_directory}".to_owned());
        push_pair(&mut f, "--assetsDir", "${assets_root}".to_owned());
        push_pair(&mut f, "--assetIndex", "${assets_index_name}".to_owned());
        push_pair(&mut f, "--username", "${auth_player_name}".to_owned());
        push_pair(&mut f, "--accessToken", "${auth_access_token}".to_owned());
        push_pair(&mut f, "--uuid", "${auth_uuid}".to_owned());
        push_pair(&mut f, "--userType", "${user_type}".to_owned());
        assert(views(f@) =~= fallback_game());
        f
    } else {
        out
    }
}

/// The list without the entries equal to `x`.
pub open spec fn without_entry(v: Seq<Seq<char>>, x: Seq<char>) -> Seq<Seq<char>>
    decreases v.len(),
{
    if v.len() == 0 {
        Seq::empty()
    } else if v.last() == x {
        without_entry(v.drop_last(), x)
    } else {
        without_entry(v.drop_last(), x).push(v.last())
    }
}

/// Whether the JVM arguments launch through the module path.
pub open spec fn module_launch(jvm: Seq<Seq<char>>) -> bool {
    jvm.contains("-p"@) || jvm.contains("--module-path"@) || jvm.contains("--add-modules"@)
}

/// The classpath value: the entries joined with the separator, without the
/// client jar when the game launches through the module path.
pub open spec fn classpath_value(entries: Seq<Seq<char>>, jar: Seq<char>, module: bool, sep: Seq<char>) -> Seq<char> {
    joined(if module { without_entry(entries, jar) } else { entries }, sep)
}

/// The agent, memory and caller-supplied JVM arguments that come first.
pub open spec fn head_args(agent: Option<Seq<char>>, min: Option<u32>, max: Option<u32>, custom: Option<Seq<Seq<char>>>) -> Seq<Seq<char>> {
    let a = match agent {
        Some(x) => seq![x],
        None => Seq::empty(),
    };
    let b = match min {
        Some(m) => a.push("-Xms"@ + decimal(m as nat) + "M"@),
        None => a,
    };
    let c = match max {
        Some(m) => b.push("-Xmx"@ + decimal(m as nat) + "M"@),
        None => b,
    };
    match custom {
        Some(v) => c + v,
        None => c,
    }
}

/// Whether some layer declares a JVM argument list, empty or not.
pub open spec fn declares_jvm(layers: Seq<ManifestLayer>) -> bool {
    exists|i: int| 0 <= i < layers.len() && (#[trigger] layers[i]).arguments.is_some() && layers[i].arguments.unwrap().jvm.is_some()
}

/// Whether some layer declares a JVM argument list.
pub fn any_jvm_declared(layers: &Vec<ManifestLayer>) -> (r: bool)
    ensures
        r == declares_jvm(layers@),
{
    let mut i: usize = 0;
    while i < layers.len()
        invariant
            i <= layers@.len(),
            forall|j: int| 0 <= j < i ==> !((#[trigger] layers@[j]).arguments.is_some() && layers@[j].arguments.unwrap().jvm.is_some()),
        decreases layers@.len() - i,
    {
        match &layers[i].arguments {
            Some(a) => if a.jvm.is_some() {
                assert(layers@[i as int].arguments.is_some() && layers@[i as int].arguments.unwrap().jvm.is_some());
                return true;
            },
            None => {},
        }
        i += 1;
    }
    false
}

/// The JVM arguments from the manifests filled in; when no layer declares a JVM
/// argument list at all, the legacy native-path and classpath arguments.
pub open spec fn jvm_section(declared: bool, jvm: Seq<Seq<char>>, natives: Seq<char>, libdir: Seq<char>, cp: Seq<char>, sep: Seq<char>, version: Seq<char>) -> Seq<Seq<char>> {
    if !declared {
        seq!["-Djava.library.path="@ + natives, "-cp"@, cp]
    } else {
        jvm.map_values(|a: Seq<char>| fill_jvm(a, natives, libdir, cp, sep, version))
    }
}

/// The last pass over every argument.
pub open spec fn fill_final(a: Seq<char>, sep: Seq<char>, version: Seq<char>) -> Seq<char> {
    replaced(replaced(replaced(a, "${classpath_separator}"@, sep), "${version_name}"@, version), "${version_type}"@, "release"@)
}

/// Caller choices that shape the command line.
pub struct LaunchSettings {
    /// The `-javaagent` argument of the authentication agent, when one is used.
    pub agent_argument: Option<String>,
    pub jvm_args: Option<Vec<String>>,
    pub min_memory: Option<u32>,
    pub max_memory: Option<u32>,
    pub width: Option<u32>,
    pub height: Option<u32>,
    pub server_ip: Option<String>,
    pub server_port: Option<u16>,
}

/// Paths and the separator the command line names.
pub struct LaunchPaths {
    pub natives_dir: String,
    pub library_dir: String,
    pub classpath_separator: String,
}

/// The optional list's strings.
pub open spec fn opt_views(o: Option<Vec<String>>) -> Option<Seq<Seq<char>>> {
    match o {
        Some(v) => Some(views(v@)),
        None => None,
    }
}

/// The whole argument vector: head arguments, JVM section, entry point, game
/// arguments, each passed through the last fill.
pub open spec fn launch_line(
    layers: Seq<ManifestLayer>,
    main_class: Seq<char>,
    version: Seq<char>,
    ctx: RuleContext,
    s: LaunchSettings,
    p: LaunchPaths,
    classpath: Seq<Seq<char>>,
    jar: Seq<char>,
    g: GameValues,
) -> Seq<Seq<char>> {
    let jvm = chain_jvm(layers, ctx);
    let cp = classpath_value(classpath, jar, module_launch(jvm), p.classpath_separator@);
    let head = head_args(opt_view(s.agent_argument), s.min_memory, s.max_memory, opt_views(s.jvm_args));
    let body = jvm_section(declares_jvm(layers), jvm, p.natives_dir@, p.library_dir@, cp, p.classpath_separator@, version);
    let game = processed_game(
        game_with_extras(chain_game(layers, ctx), s.width, s.height, opt_view(s.server_ip), s.server_port),
        g,
        s.width,
        s.height,
    );
    (head + body + seq![main_class] + game).map_values(|a: Seq<char>| fill_final(a, p.classpath_separator@, version))
}

fn drop_entry(v: &Vec<String>, x: &str) -> (r: Vec<String>)
    ensures
        views(r@) == without_entry(views(v@), x@),
{
    let mut out: Vec<String> = Vec::new();
    let mut i: usize = 0;
    let ghost vv = views(v@);
    assert(vv.subrange(0, 0) =~= Seq::<Seq<char>>::empty());
    assert(views(out@) =~= Seq::<Seq<char>>::empty());
    while i < v.len()
        invariant
            i <= v@.len(),
            vv == views(v@),
            views(out@) == without_entry(vv.subrange(0, i as int), x@),
        decreases v@.len() - i,
    {
        let ghost next = vv.subrange(0, i + 1);
        assert(next.drop_last() =~= vv.subrange(0, i as int));
        assert(next.last() == v@[i as int]@);
        if !str_eq(v[i].as_str(), x) {
            let ghost before = out@;
            let c = v[i].clone();
            out.push(c);
            assert(views(out@) =~= views(before).push(c@));
        }
        i += 1;
    }
    assert(vv.subrange(0, i as int) =~= vv);
    out
}

fn memory_argument(prefix: &str, m: u32) -> (r: String)
    ensures
        r@ == prefix@ + decimal(m as nat) + "M"@,
{
    let d = decimal_string(m as u64);
    let a = cat(prefix, d.as_str());
    cat(a.as_str(), "M")
}

fn final_fill(a: &str, sep: &str, version: &str) -> (r: String)
    ensures
        r@ == fill_final(a@, sep@, version@),
{
    proof {
        reveal_strlit("${classpath_separator}");
        reveal_strlit("${version_name}");
        reveal_strlit("${version_type}");
    }
    let r1 = replace_all(a, "${classpath_separator}", sep);
    let r2 = rep(r1, "${version_name}", version);
    rep(r2, "${version_type}", "release")
}

fn launch_head(settings: &LaunchSettings) -> (r: Vec<String>)
    ensures
        views(r@) == head_args(opt_view(settings.agent_argument), settings.min_memory, settings.max_memory, opt_views(settings.jvm_args)),
{
    let mut all: Vec<String> = Vec::new();
    match &settings.agent_argument {
        Some(x) => {
            all.push(x.clone());
        },
        None => {},
    }
    match settings.min_memory {
        Some(m) => {
            all.push(memory_argument("-Xms", m));
        },
        None => {},
    }
    match settings.max_memory {
        Some(m) => {
            all.push(memory_argument("-Xmx", m));
        },
        None => {},
    }
    match &settings.jvm_args {
        Some(v) => {
            let more = copy_strings(v);
            extend_strings(&mut all, more);
        },
        None => {},
    }
    assert(views(all@) =~= head_args(opt_view(settings.agent_argument), settings.min_memory, settings.max_memory, opt_views(settings.jvm_args)));
    all
}

fn jvm_arguments_section(declared: bool, jvm: &Vec<String>, natives: &str, libdir: &str, cp: String, sep: &str, version: &str) -> (r: Vec<String>)
    ensures
        views(r@) == jvm_section(declared, views(jvm@), natives@, libdir@, cp@, sep@, version@),
{
    let mut all: Vec<String> = Vec::new();
    if !declared {
        let ghost c = cp@;
        all.push(cat("-Djava.library.path=", natives));
        all.push("-cp".to_owned());
        all.push(cp);
        assert(views(all@) =~= jvm_section(declared, views(jvm@), natives@, libdir@, c, sep@, version@));
        all
    } else {
        let mut k: usize = 0;
        assert(views(all@) =~= views(jvm@).subrange(0, 0).map_values(|a: Seq<char>| fill_jvm(a, natives@, libdir@, cp@, sep@, version@)));
        while k < jvm.len()
            invariant
                k <= jvm@.len(),
                views(all@) == views(jvm@).subrange(0, k as int).map_values(
                    |a: Seq<char>| fill_jvm(a, natives@, libdir@, cp@, sep@, version@),
                ),
            decreases jvm@.len() - k,
        {
            let ghost prev = all@;
            let x = substitute_jvm(jvm[k].as_str(), natives, libdir, cp.as_str(), sep, version);
            all.push(x);
            assert(views(all@) =~= views(prev).push(x@));
            assert(views(jvm@).subrange(0, k + 1) =~= views(jvm@).subrange(0, k as int).push(jvm@[k as int]@));
            assert(views(all@) =~= views(jvm@).subrange(0, k + 1).map_values(
                |a: Seq<char>| fill_jvm(a, natives@, libdir@, cp@, sep@, version@),
            ));
            k += 1;
        }
        assert(views(jvm@).subrange(0, k as int) =~= views(jvm@));
        all
    }
}

fn apply_final(all: &Vec<String>, sep: &str, version: &str) -> (r: Vec<String>)
    ensures
        views(r@) == views(all@).map_values(|a: Seq<char>| fill_final(a, sep@, version@)),
{
    let ghost whole = views(all@);
    let mut out: Vec<String> = Vec::new();
    let mut i: usize = 0;
    assert(views(out@) =~= whole.subrange(0, 0).map_values(|a: Seq<char>| fill_final(a, sep@, version@)));
    while i < all.len()
        invariant
            i <= all@.len(),
            whole == views(all@),
            views(out@) == whole.subrange(0, i as int).map_values(|a: Seq<char>| fill_final(a, sep@, version@)),
        decreases all@.len() - i,
    {
        let ghost prev = out@;
        let x = final_fill(all[i].as_str(), sep, version);
        out.push(x);
        assert(views(out@) =~= views(prev).push(x@));
        assert(whole.subrange(0, i + 1) =~= whole.subrange(0, i as int).push(all@[i as int]@));
        assert(views(out@) =~= whole.subrange(0, i + 1).map_values(|a: Seq<char>| fill_final(a, sep@, version@)));
        i += 1;
    }
    assert(whole.subrange(0, i as int) =~= whole);
    out
}

fn classpath_string(classpath: &Vec<String>, jar: &str, jvm: &Vec<String>, sep: &str) -> (r: String)
    ensures
        r@ == classpath_value(views(classpath@), jar@, module_launch(views(jvm@)), sep@),
{
    let module = holds(jvm, "-p") || holds(jvm, "--module-path") || holds(jvm, "--add-modules");
    if module {
        let entries = drop_entry(classpath, jar);
        join(&entries, sep)
    } else {
        join(classpath, sep)
    }
}

/// Builds the argument vector of the game process from the resolved layers
/// (oldest first), the entry point, the host, the caller's settings, the
/// classpath entries that are present (client jar last) and the game values.
pub fn build_launch_arguments(
    layers: &Vec<ManifestLayer>,
    main_class: &str,
    version: &str,
    ctx: &RuleContext,
    settings: &LaunchSettings,
    paths: &LaunchPaths,
    classpath: &Vec<String>,
    jar: &str,
    g: &GameValues,
) -> (r: Vec<String>)
    ensures
        views(r@) == launch_line(layers@, main_class@, version@, *ctx, *settings, *paths, views(classpath@), jar@, *g),
{
    let sep = paths.classpath_separator.as_str();
    let jvm = chain_jvm_arguments(layers, ctx);
    let cp = classpath_string(classpath, jar, &jvm, sep);
    let mut all = launch_head(settings);
    let declared = any_jvm_declared(layers);
    let body = jvm_arguments_section(declared, &jvm, paths.natives_dir.as_str(), paths.library_dir.as_str(), cp, sep, version);
    extend_strings(&mut all, body);
    let mut m: Vec<String> = Vec::new();
    m.push(main_class.to_owned());
    assert(views(m@) =~= seq![main_class@]);
    extend_strings(&mut all, m);
    let game_raw = chain_game_arguments(layers, ctx);
    let extended = add_game_extras(game_raw, settings.width, settings.height, &settings.server_ip, settings.server_port);
    let game = process_game_arguments(&extended, g, settings.width, settings.height);
    extend_strings(&mut all, game);
    apply_final(&all, sep, version)
}

} // verus!
