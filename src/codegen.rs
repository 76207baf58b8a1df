//! Generation of the route registrations and module imports, and their
//! splicing into the server entry point template.
use vstd::prelude::*;
use crate::route::RouteView;
use crate::table::{RouteTable, ROOT_FOLDER, routes_prefix, route_key};
use crate::text::{occurs_at, splice_first, starts_with, strip_prefix, replace_first};

verus! {

/// Marker line of the route registrations in the template.
pub const ROUTE_MARKER: &'static str = "// ROUTE_BUILDER\n";

/// Marker line of the module imports in the template.
pub const MODULE_MARKER: &'static str = "// MODULE_IMPORTS\n";

/// Prefix of the URL of every route's data endpoint.
pub const DATA_PREFIX: &'static str = "/__tuono/data";

/// Folder of the generated files, relative to the project root.
pub const OUTPUT_FOLDER: &'static str = ".tuono";

/// Step from the output folder up to the project root.
pub const PARENT_STEP: &'static str = "../";

/// Registration of a route's page handler.
pub open spec fn page_registration(r: RouteView) -> Seq<char> {
    ".route(\""@ + r.axum_route + "\", get("@ + r.module_import + "::route))"@
}

/// Registration of a route's data handler.
pub open spec fn data_registration(r: RouteView) -> Seq<char> {
    ".route(\""@ + DATA_PREFIX@ + r.axum_route + "\", get("@ + r.module_import + "::api))"@
}

/// One page and one data registration for each entry, in table order.
pub open spec fn registrations(entries: Seq<(Seq<char>, RouteView)>) -> Seq<Seq<char>> {
    entries.map_values(|e: (Seq<char>, RouteView)| page_registration(e.1) + data_registration(e.1))
}

/// Path of a route source file as written in the generated file, which lies
/// in the output folder.
pub open spec fn import_path(key: Seq<char>) -> Seq<char> {
    PARENT_STEP@ + ROOT_FOLDER@ + key
}

/// Declaration of the module `module` from the route file under `key`.
pub open spec fn module_declaration(key: Seq<char>, module: Seq<char>) -> Seq<char> {
    "#[path=\""@ + import_path(key) + "\"]\nmod "@ + module + ";\n"@
}

/// One module declaration for each entry, in table order.
pub open spec fn module_declarations(entries: Seq<(Seq<char>, RouteView)>) -> Seq<Seq<char>> {
    entries.map_values(|e: (Seq<char>, RouteView)| module_declaration(e.0, e.1.module_import))
}

/// The pieces of `parts` one after another.
pub open spec fn concat(parts: Seq<Seq<char>>) -> Seq<char>
    decreases parts.len(),
{
    if parts.len() == 0 {
        seq![]
    } else {
        concat(parts.drop_last()) + parts.last()
    }
}

/// The route registration block: its marker line, then the registrations.
pub open spec fn routes_declaration(entries: Seq<(Seq<char>, RouteView)>) -> Seq<char> {
    ROUTE_MARKER@ + concat(registrations(entries))
}

/// The module import block: its marker line, then the declarations.
pub open spec fn modules_declaration(entries: Seq<(Seq<char>, RouteView)>) -> Seq<char> {
    MODULE_MARKER@ + concat(module_declarations(entries))
}

/// The template with both blocks spliced in at their markers.
pub open spec fn bundled(entries: Seq<(Seq<char>, RouteView)>, template: Seq<char>) -> Seq<char> {
    splice_first(
        splice_first(template, ROUTE_MARKER@, routes_declaration(entries)),
        MODULE_MARKER@,
        modules_declaration(entries),
    )
}

/// Where a path written in the generated file leads, relative to the project
/// root: a leading `../` climbs out of the output folder.
pub open spec fn resolve_from_output_folder(path: Seq<char>) -> Seq<char> {
    if starts_with(path, PARENT_STEP@) {
        strip_prefix(path, PARENT_STEP@)
    } else {
        OUTPUT_FOLDER@ + "/"@ + path
    }
}

/// The pieces up to `k` make a prefix of all pieces joined.
proof fn lemma_concat_prefix(parts: Seq<Seq<char>>, k: int)
    requires
        0 <= k <= parts.len(),
    ensures
        starts_with(concat(parts), concat(parts.subrange(0, k))),
    decreases parts.len(),
{
    if k == parts.len() {
        assert(parts.subrange(0, k) =~= parts);
        assert(concat(parts).subrange(0, concat(parts).len() as int) =~= concat(parts));
    } else {
        let init = parts.drop_last();
        lemma_concat_prefix(init, k);
        assert(init.subrange(0, k) =~= parts.subrange(0, k));
        let p = concat(parts.subrange(0, k));
        assert(concat(parts).subrange(0, p.len() as int) =~= concat(init).subrange(
            0,
            p.len() as int,
        ));
    }
}

/// The route block holds exactly one page registration followed by its data
/// registration for each entry, one after another in table order: as many
/// pairs as entries, the pair of entry `i` starting where those of the
/// entries before it end.
pub proof fn lemma_one_registration_pair_per_entry(entries: Seq<(Seq<char>, RouteView)>)
    ensures
        registrations(entries).len() == entries.len(),
        routes_declaration(entries) == ROUTE_MARKER@ + concat(registrations(entries)),
        forall|i: int|
            0 <= i < entries.len() ==> occurs_at(
                #[trigger] routes_declaration(entries),
                page_registration(entries[i].1) + data_registration(entries[i].1),
                (ROUTE_MARKER@.len() + concat(registrations(entries).subrange(0, i)).len()) as int,
            ),
{
    let regs = registrations(entries);
    let decl = routes_declaration(entries);
    assert forall|i: int| 0 <= i < entries.len() implies occurs_at(
        decl,
        page_registration(entries[i].1) + data_registration(entries[i].1),
        (ROUTE_MARKER@.len() + concat(regs.subrange(0, i)).len()) as int,
    ) by {
        lemma_concat_prefix(regs, i + 1);
        let before = concat(regs.subrange(0, i));
        let upto = concat(regs.subrange(0, i + 1));
        assert(regs.subrange(0, i + 1).drop_last() =~= regs.subrange(0, i));
        assert(upto == before + regs[i]);
        let m = ROUTE_MARKER@.len();
        let start = (m + before.len()) as int;
        assert(decl.subrange(start, start + regs[i].len() as int) =~= upto.subrange(
            before.len() as int,
            upto.len() as int,
        ));
        assert(upto.subrange(before.len() as int, upto.len() as int) =~= regs[i]);
    }
}

/// Each module declaration points back at its route file: the path written
/// for the file at `absolute`, followed from the output folder, is the
/// routes folder joined with the table key, and joined to the project root it
/// gives `absolute` again.
pub proof fn lemma_import_path_round_trip(base_path: Seq<char>, absolute: Seq<char>)
    requires
        starts_with(absolute, routes_prefix(base_path)),
    ensures
        resolve_from_output_folder(import_path(route_key(base_path, absolute))) == ROOT_FOLDER@
            + route_key(base_path, absolute),
        base_path + "/"@ + resolve_from_output_folder(import_path(route_key(base_path, absolute)))
            == absolute,
{
    let key = route_key(base_path, absolute);
    let rest = ROOT_FOLDER@ + key;
    let path = import_path(key);
    assert(path =~= PARENT_STEP@ + rest);
    assert(path.subrange(0, PARENT_STEP@.len() as int) =~= PARENT_STEP@);
    assert(path.subrange(PARENT_STEP@.len() as int, path.len() as int) =~= rest);
    let prefix = routes_prefix(base_path);
    assert(absolute =~= prefix + key) by {
        assert(absolute.subrange(0, prefix.len() as int) == prefix);
        assert(key =~= absolute.subrange(prefix.len() as int, absolute.len() as int));
    }
    assert(base_path + "/"@ + rest =~= prefix + key);
}

/// The route registration block for every entry of `routes`.
pub fn create_routes_declaration(routes: &RouteTable) -> (r: String)
    ensures
        r@ == routes_declaration(routes@),
{
    let n = routes.len();
    let mut out = ROUTE_MARKER.to_string();
    let mut i: usize = 0;
    while i < n
        invariant
            n == routes@.len(),
            i <= n,
            out@ == ROUTE_MARKER@ + concat(registrations(routes@.subrange(0, i as int))),
        decreases n - i,
    {
        let route = routes.route_at(i);
        let ghost before = out@;
        out.append(".route(\"");
        out.append(route.axum_route.as_str());
        out.append("\", get(");
        out.append(route.module_import.as_str());
        out.append("::route))");
        out.append(".route(\"");
        out.append(DATA_PREFIX);
        out.append(route.axum_route.as_str());
        out.append("\", get(");
        out.append(route.module_import.as_str());
        out.append("::api))");
        proof {
            let prev = routes@.subrange(0, i as int);
            let next = routes@.subrange(0, i + 1);
            assert(registrations(next).drop_last() =~= registrations(prev));
            assert(registrations(next).last() == page_registration(route@) + data_registration(
                route@,
            ));
            assert(out@ =~= before + (page_registration(route@) + data_registration(route@)));
        }
        i = i + 1;
    }
    assert(routes@.subrange(0, n as int) =~= routes@);
    out
}

/// The module import block for every entry of `routes`.
pub fn create_modules_declaration(routes: &RouteTable) -> (r: String)
    ensures
        r@ == modules_declaration(routes@),
{
    let n = routes.len();
    let mut out = MODULE_MARKER.to_string();
    let mut i: usize = 0;
    while i < n
        invariant
            n == routes@.len(),
            i <= n,
            out@ == MODULE_MARKER@ + concat(module_declarations(routes@.subrange(0, i as int))),
        decreases n - i,
    {
        let key = routes.key_at(i);
        let route = routes.route_at(i);
        let ghost before = out@;
        out.append("#[path=\"");
        out.append(PARENT_STEP);
        out.append(ROOT_FOLDER);
        out.append(key.as_str());
        out.append("\"]\nmod ");
        out.append(route.module_import.as_str());
        out.append(";\n");
        proof {
            let prev = routes@.subrange(0, i as int);
            let next = routes@.subrange(0, i + 1);
            assert(module_declarations(next).drop_last() =~= module_declarations(prev));
            assert(module_declarations(next).last() == module_declaration(
                key@,
                route@.module_import,
            ));
            assert(out@ =~= before + module_declaration(key@, route@.module_import));
        }
        i = i + 1;
    }
    assert(routes@.subrange(0, n as int) =~= routes@);
    out
}

/// The template with the route registrations spliced in at the first route
/// marker and then the module imports at the first module marker; a block
/// whose marker is absent is left out.
pub fn bundle_source(routes: &RouteTable, template: &str) -> (r: String)
    ensures
        r@ == bundled(routes@, template@),
{
    let with_routes = replace_first(template, ROUTE_MARKER, create_routes_declaration(routes).as_str());
    replace_first(with_routes.as_str(), MODULE_MARKER, create_modules_declaration(routes).as_str())
}

} // verus!
