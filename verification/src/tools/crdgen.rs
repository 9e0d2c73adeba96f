//! The schema of the chart's values, kept in step with the resource definitions.
use crate::json;
use crate::json::Json;
use crate::text;
use vstd::prelude::*;

verus! {

/// What becomes of a character in lower case.
pub uninterp spec fn lower(c: char) -> Seq<char>;

/// What becomes of a character of ASCII in lower case: a capital letter becomes its
/// small one, and every other character stays.
pub open spec fn ascii_lower(c: char) -> Seq<char> {
    Seq::empty().push(
        if 'A' <= c <= 'Z' {
            (c as int + 32) as char
        } else {
            c
        },
    )
}

/// A character in lower case.
pub open spec fn lowered(c: char) -> Seq<char> {
    if (c as int) < 128 {
        ascii_lower(c)
    } else {
        lower(c)
    }
}

/// `char::to_lowercase`, as text: the character in lower case. What becomes of a
/// character beyond ASCII is not stated.
#[verifier::external_body]
fn lowercase(c: char) -> (r: String)
    ensures
        r@ == lower(c),
        (c as int) < 128 ==> r@ == ascii_lower(c),
{
    c.to_lowercase().to_string()
}

/// The key of a kind among the chart's values, where its first character is
/// `first` in lower case: `HeadscaleInstance` is found under `headscaleInstances`.
pub open spec fn key_with(first: Seq<char>, kind: Seq<char>) -> Seq<char> {
    first + kind.skip(1) + "s"@
}

/// The key of a kind among the chart's values.
pub open spec fn values_key(kind: Seq<char>) -> Seq<char> {
    if kind.len() == 0 {
        Seq::empty()
    } else {
        key_with(lowered(kind[0]), kind)
    }
}

/// Names the key of a kind whose first character is `first` in lower case.
pub fn key_for(first: &str, kind: &str) -> (r: String)
    requires
        kind@.len() > 0,
    ensures
        r@ == key_with(first@, kind@),
{
    let n: usize = kind.unicode_len();
    let rest: &str = kind.substring_char(1, n);
    proof {
        assert(rest@ =~= kind@.skip(1));
    }
    text::cat3(first, rest, "s")
}

/// Names the key of a kind among the chart's values.
pub fn values_key_for_kind(kind: &str) -> (r: String)
    ensures
        r@ == values_key(kind@),
{
    if kind.unicode_len() == 0 {
        return String::new();
    }
    let first: String = lowercase(kind.get_char(0));
    key_for(first.as_str(), kind)
}

/// A resource definition, as far as the chart's values go by it.
pub struct Definition {
    pub kind: String,
    pub plural: String,
    /// The schema of the resource's `spec`, if it has one.
    pub spec_schema: Option<serde_json::Value>,
}

/// The file of a definition.
pub fn crd_filename(definition: &Definition) -> (r: String)
    ensures
        r@ == definition.plural@ + ".yaml"@,
{
    text::cat2(definition.plural.as_str(), ".yaml")
}

/// What stands under one key after the other.
pub open spec fn under(v: Json, keys: Seq<Seq<char>>) -> Option<Json>
    decreases keys.len(),
{
    if keys.len() == 0 {
        Some(v)
    } else {
        match under(v, keys.drop_last()) {
            Some(inner) => json::field_of(inner, keys.last()),
            None => None,
        }
    }
}

/// The schema of the `spec` in the first version of a definition's manifest.
pub open spec fn spec_schema_of(manifest: Json) -> Option<Json> {
    match under(manifest, Seq::empty().push("spec"@).push("versions"@)) {
        Some(Json::Array(versions)) => if versions.len() > 0 {
            under(
                versions[0],
                Seq::empty().push("schema"@).push("openAPIV3Schema"@).push("properties"@).push(
                    "spec"@,
                ),
            )
        } else {
            None
        },
        _ => None,
    }
}

/// Takes the schema of the `spec` out of a definition's manifest.
pub fn extract_spec_schema(manifest: &serde_json::Value) -> (r: Option<serde_json::Value>)
    ensures
        match spec_schema_of(json::json(*manifest)) {
            Some(schema) => r is Some && json::json(r->0) == schema,
            None => r is None,
        },
{
    let ghost to_versions = Seq::<Seq<char>>::empty().push("spec"@).push("versions"@);
    let ghost to_spec = Seq::<Seq<char>>::empty().push("schema"@).push("openAPIV3Schema"@).push(
        "properties"@,
    ).push("spec"@);
    proof {
        reveal_with_fuel(under, 5);
        assert(to_versions.drop_last() =~= Seq::empty().push("spec"@));
        assert(to_versions.drop_last().drop_last() =~= Seq::empty());
        assert(to_spec.drop_last() =~= Seq::empty().push("schema"@).push("openAPIV3Schema"@).push(
            "properties"@,
        ));
        assert(to_spec.drop_last().drop_last() =~= Seq::empty().push("schema"@).push(
            "openAPIV3Schema"@,
        ));
        assert(to_spec.drop_last().drop_last().drop_last() =~= Seq::empty().push("schema"@));
    }
    let spec: &serde_json::Value = json::field(manifest, "spec")?;
    let versions: &Vec<serde_json::Value> = json::field(spec, "versions")?.as_array()?;
    if versions.len() == 0 {
        return None;
    }
    let schema: &serde_json::Value = json::field(&versions[0], "schema")?;
    let root: &serde_json::Value = json::field(schema, "openAPIV3Schema")?;
    let properties: &serde_json::Value = json::field(root, "properties")?;
    let found: &serde_json::Value = json::field(properties, "spec")?;
    Some(found.clone())
}

/// The schema without what users of the chart need not know: `resources` is an
/// object with whatever in it.
pub open spec fn simplified(schema: Json) -> Json {
    match json::field_of(schema, "properties"@) {
        Some(props) => match json::field_of(props, "resources"@) {
            Some(Json::Object(m)) => Json::Object(
                schema->Object_0.insert(
                    "properties"@,
                    Json::Object(
                        props->Object_0.insert(
                            "resources"@,
                            Json::Object(
                                m.remove("properties"@).insert(
                                    "x-kubernetes-preserve-unknown-fields"@,
                                    Json::Bool(true),
                                ),
                            ),
                        ),
                    ),
                ),
            ),
            _ => schema,
        },
        None => schema,
    }
}

/// Simplifies a schema.
pub fn simplify_k8s_fields(schema: serde_json::Value) -> (r: serde_json::Value)
    ensures
        json::json(r) == simplified(json::json(schema)),
{
    let props: serde_json::Value = match json::field(&schema, "properties") {
        Some(props) => props.clone(),
        None => {
            return schema;
        },
    };
    let resources: serde_json::Value = match json::field(&props, "resources") {
        Some(resources) => resources.clone(),
        None => {
            return schema;
        },
    };
    if json::field_names(&resources).is_none() {
        return schema;
    }
    let less: serde_json::Value = json::with_field(
        json::without_field(resources, "properties"),
        "x-kubernetes-preserve-unknown-fields".to_owned(),
        json::of_bool(true),
    );
    json::with_field(
        schema,
        "properties".to_owned(),
        json::with_field(props, "resources".to_owned(), less),
    )
}

/// The key is one field name to a JSON pointer, and no position in an array.
pub open spec fn is_plain(key: Seq<char>) -> bool {
    !key.contains('/') && !key.contains('~') && !(key.len() > 0 && text::is_digit(key[0]))
}

/// All keys of a path are plain.
pub open spec fn is_plain_path(path: Seq<Seq<char>>) -> bool {
    forall|i: int| 0 <= i < path.len() ==> is_plain(#[trigger] path[i])
}

/// The JSON pointer that leads along a path of plain keys.
pub open spec fn pointer_along(path: Seq<Seq<char>>) -> Seq<char>
    decreases path.len(),
{
    if path.len() == 0 {
        Seq::empty()
    } else {
        pointer_along(path.drop_last()) + "/"@ + path.last()
    }
}

/// A value with `x` in the place that a path of field names leads to; nothing where
/// there is no such place.
pub open spec fn replaced(v: Json, path: Seq<Seq<char>>, x: Json) -> Option<Json>
    decreases path.len(),
{
    if path.len() == 0 {
        Some(x)
    } else {
        match json::field_of(v, path.first()) {
            Some(inner) => match replaced(inner, path.skip(1), x) {
                Some(after) => Some(Json::Object(v->Object_0.insert(path.first(), after))),
                None => None,
            },
            None => None,
        }
    }
}

/// A value with `x` in the place that a JSON pointer leads to; nothing where there is
/// no such place.
pub uninterp spec fn pointed(v: Json, pointer: Seq<char>, x: Json) -> Option<Json>;

/// `serde_json::Value::pointer_mut`, and an assignment to what it points at: where
/// the pointer leads somewhere, the value with `x` in that place. A pointer made of
/// plain keys leads from field to field; where others lead is not stated.
#[verifier::external_body]
fn set_at(v: serde_json::Value, pointer: &str, x: serde_json::Value) -> (r: Option<
    serde_json::Value,
>)
    ensures
        match pointed(json::json(v), pointer@, json::json(x)) {
            Some(after) => r is Some && json::json(r->0) == after,
            None => r is None,
        },
        forall|path: Seq<Seq<char>>|
            is_plain_path(path) && pointer@ == #[trigger] pointer_along(path) ==> match replaced(
                json::json(v),
                path,
                json::json(x),
            ) {
                Some(after) => r is Some && json::json(r->0) == after,
                None => r is None,
            },
{
    let mut v = v;
    let place = v.pointer_mut(pointer)?;
    *place = x;
    Some(v)
}

/// The way to the schema of the values under a key.
pub open spec fn way(key: Seq<char>) -> Seq<Seq<char>> {
    Seq::empty().push("properties"@).push(key).push("additionalProperties"@)
}

/// The values schema with another schema for the values under a key; nothing where it
/// has no place for one.
pub open spec fn placed(values: Json, key: Seq<char>, schema: Json) -> Option<Json> {
    if is_plain(key) {
        replaced(values, way(key), schema)
    } else {
        pointed(values, "/properties/"@ + key + "/additionalProperties"@, schema)
    }
}

/// The values schema with another schema for the values under a plain key, written
/// out.
proof fn placed_plainly(values: Json, key: Seq<char>, schema: Json)
    ensures
        replaced(values, way(key), schema) == match json::field_of(values, "properties"@) {
            Some(props) => match json::field_of(props, key) {
                Some(entry) => match json::field_of(entry, "additionalProperties"@) {
                    Some(_) => Some(
                        Json::Object(
                            values->Object_0.insert(
                                "properties"@,
                                Json::Object(
                                    props->Object_0.insert(
                                        key,
                                        Json::Object(
                                            entry->Object_0.insert(
                                                "additionalProperties"@,
                                                schema,
                                            ),
                                        ),
                                    ),
                                ),
                            ),
                        ),
                    ),
                    None => None,
                },
                None => None,
            },
            None => None,
        },
{
    reveal_with_fuel(replaced, 4);
    let path = way(key);
    assert(path.first() == "properties"@);
    assert(path.skip(1).first() == key);
    assert(path.skip(1).skip(1).first() == "additionalProperties"@);
    assert(path.skip(1).skip(1).skip(1).len() == 0);
}

/// The pointer to the schema of the values under a key leads along the way there.
proof fn pointer_to(key: Seq<char>)
    ensures
        "/properties/"@ + key + "/additionalProperties"@ == pointer_along(way(key)),
        is_plain(key) ==> is_plain_path(way(key)),
{
    reveal_with_fuel(pointer_along, 4);
    reveal_strlit("/");
    reveal_strlit("properties");
    reveal_strlit("additionalProperties");
    reveal_strlit("/properties/");
    reveal_strlit("/additionalProperties");
    let path = way(key);
    let first = Seq::<Seq<char>>::empty().push("properties"@);
    assert(path.drop_last() =~= first.push(key));
    assert(path.drop_last().drop_last() =~= first);
    assert(first.drop_last() =~= Seq::<Seq<char>>::empty());
    assert(pointer_along(first) =~= "/"@ + "properties"@);
    assert("/properties/"@ =~= "/"@ + "properties"@ + "/"@);
    assert("/additionalProperties"@ =~= "/"@ + "additionalProperties"@);
    assert("/properties/"@ + key + "/additionalProperties"@ =~= pointer_along(path));
}

/// Puts another schema in the place of that of the values under a key.
fn place(values: serde_json::Value, key: &str, schema: serde_json::Value) -> (r: Option<
    serde_json::Value,
>)
    ensures
        match placed(json::json(values), key@, json::json(schema)) {
            Some(after) => r is Some && json::json(r->0) == after,
            None => r is None,
        },
{
    let pointer: String = text::cat3("/properties/", key, "/additionalProperties");
    proof {
        pointer_to(key@);
    }
    set_at(values, pointer.as_str(), schema)
}

/// The values schema with the schema of a definition in its place, if it has one.
pub open spec fn with_definition(values: Json, definition: Definition) -> Json {
    match definition.spec_schema {
        Some(schema) => match placed(
            values,
            values_key(definition.kind@),
            simplified(json::json(schema)),
        ) {
            Some(after) => after,
            None => values,
        },
        None => values,
    }
}

/// The values schema with the schemas of these definitions in their places.
pub open spec fn with_definitions(values: Json, definitions: Seq<Definition>) -> Json
    decreases definitions.len(),
{
    if definitions.len() == 0 {
        values
    } else {
        with_definition(
            with_definitions(values, definitions.drop_last()),
            definitions.last(),
        )
    }
}

/// Takes what came of placing a schema: the old document where there was no place.
pub fn after_placing(before: serde_json::Value, placed: Option<serde_json::Value>) -> (r:
    serde_json::Value)
    ensures
        json::json(r) == (match placed {
            Some(after) => json::json(after),
            None => json::json(before),
        }),
{
    match placed {
        Some(after) => after,
        None => before,
    }
}

/// Puts the schemas of definitions in their places.
pub fn place_definitions(values: serde_json::Value, definitions: &Vec<Definition>) -> (r:
    serde_json::Value)
    ensures
        json::json(r) == with_definitions(json::json(values), definitions@),
{
    let mut out: serde_json::Value = values;
    let ghost start = json::json(values);
    let ghost all = definitions@;
    let mut i: usize = 0;
    proof {
        assert(all.take(0) =~= Seq::<Definition>::empty());
    }
    while i < definitions.len()
        invariant
            i <= definitions@.len(),
            all == definitions@,
            json::json(out) == with_definitions(start, all.take(i as int)),
        decreases definitions@.len() - i,
    {
        proof {
            assert(all.take(i + 1).drop_last() =~= all.take(i as int));
            assert(all.take(i + 1).last() == all[i as int]);
        }
        if let Some(schema) = &definitions[i].spec_schema {
            let key: String = values_key_for_kind(definitions[i].kind.as_str());
            let simple: serde_json::Value = simplify_k8s_fields(schema.clone());
            let after: Option<serde_json::Value> = place(out.clone(), key.as_str(), simple);
            out = after_placing(out, after);
        }
        i += 1;
    }
    proof {
        assert(all.take(i as int) =~= all);
    }
    out
}

/// A values schema as a file.
pub open spec fn file_text(values: Json) -> Seq<char> {
    json::pretty(values) + "\n"@
}

/// Brings the text of a values schema in step with the definitions. A text that is
/// no JSON is an error.
pub fn apply_crd_schemas(definitions: &Vec<Definition>, content: &str) -> (r: Result<
    String,
    serde_json::Error,
>)
    ensures
        match json::json_text(content@) {
            Some(values) => r matches Ok(text) && text@ == file_text(
                with_definitions(values, definitions@),
            ),
            None => r is Err,
        },
{
    match json::parse_json(content) {
        Ok(values) => {
            let after: serde_json::Value = place_definitions(values, definitions);
            let text: String = json::to_pretty(&after);
            Ok(text::cat2(text.as_str(), "\n"))
        },
        Err(e) => Err(e),
    }
}

// Laws.

/// The schema of a definition replaces nothing but the schema of the values under
/// its key.
pub proof fn other_values_stay(values: Json, key: Seq<char>, schema: Json, other: Seq<char>)
    requires
        is_plain(key),
        placed(values, key, schema) is Some,
        other != key,
    ensures
        ({
            let after = placed(values, key, schema)->0;
            let props = json::field_of(values, "properties"@)->0;
            let props_after = json::field_of(after, "properties"@)->0;
            &&& json::field_of(props_after, other) == json::field_of(props, other)
            &&& json::field_of(json::field_of(props_after, key)->0, "additionalProperties"@)
                == Some(schema)
        }),
{
    placed_plainly(values, key, schema);
}

/// Putting a schema in its place a second time changes nothing.
pub proof fn placing_again_changes_nothing(values: Json, key: Seq<char>, schema: Json)
    requires
        is_plain(key),
        placed(values, key, schema) is Some,
    ensures
        ({
            let after = placed(values, key, schema)->0;
            placed(after, key, schema) == Some(after)
        }),
{
    placed_plainly(values, key, schema);
    let after = placed(values, key, schema)->0;
    placed_plainly(after, key, schema);
    let props = json::field_of(after, "properties"@)->0;
    let entry = json::field_of(props, key)->0;
    assert(entry->Object_0.insert("additionalProperties"@, schema) =~= entry->Object_0);
    assert(props->Object_0.insert(key, entry) =~= props->Object_0);
    assert(after->Object_0.insert("properties"@, props) =~= after->Object_0);
}

/// A schema that was simplified is as simple as it gets.
pub proof fn simplifying_again_changes_nothing(schema: Json)
    ensures
        simplified(simplified(schema)) == simplified(schema),
{
    let once = simplified(schema);
    reveal_strlit("properties");
    reveal_strlit("x-kubernetes-preserve-unknown-fields");
    assert("properties"@.len() != "x-kubernetes-preserve-unknown-fields"@.len());
    if once != schema {
        let props = json::field_of(once, "properties"@)->0;
        let resources = json::field_of(props, "resources"@)->0;
        let m = resources->Object_0;
        assert(m.remove("properties"@).insert(
            "x-kubernetes-preserve-unknown-fields"@,
            Json::Bool(true),
        ) =~= m);
        assert(props->Object_0.insert("resources"@, resources) =~= props->Object_0);
        assert(once->Object_0.insert("properties"@, props) =~= once->Object_0);
    }
}

/// The key of a kind among the chart's values is the kind with a small first letter and an
/// `s` behind it.
pub proof fn keys_are_plural_and_small(kind: Seq<char>)
    requires
        kind.len() > 0,
        'A' <= kind[0] <= 'Z',
    ensures
        values_key(kind).len() == kind.len() + 1,
        values_key(kind)[0] as int == kind[0] as int + 32,
        values_key(kind).last() == 's',
        forall|i: int| 1 <= i < kind.len() ==> #[trigger] values_key(kind)[i] == kind[i],
{
    reveal_strlit("s");
    let key = values_key(kind);
    assert(lowered(kind[0]).len() == 1);
    assert forall|i: int| 1 <= i < kind.len() implies #[trigger] key[i] == kind[i] by {
        assert(key[i] == kind.skip(1)[i - 1]);
    }
}

/// Simplifying a schema touches nothing but the `resources` property, where that is an
/// object: it loses its own properties and lets unknown fields be. All else stays.
pub proof fn only_resources_are_simplified(schema: Json, key: Seq<char>)
    ensures
        ({
            let after = simplified(schema);
            let touched = schema is Object && schema->Object_0.dom().contains("properties"@)
                && schema->Object_0["properties"@] is Object
                && schema->Object_0["properties"@]->Object_0.dom().contains("resources"@)
                && schema->Object_0["properties"@]->Object_0["resources"@] is Object;
            let props = schema->Object_0["properties"@]->Object_0;
            let new_props = after->Object_0["properties"@]->Object_0;
            let before = props["resources"@]->Object_0;
            let now = new_props["resources"@]->Object_0;
            &&& !touched ==> after == schema
            &&& touched ==> {
                &&& after is Object
                &&& after->Object_0.dom() == schema->Object_0.dom()
                &&& key != "properties"@ && schema->Object_0.dom().contains(key)
                    ==> after->Object_0[key] == schema->Object_0[key]
                &&& after->Object_0["properties"@] is Object
                &&& new_props.dom() == props.dom()
                &&& key != "resources"@ && props.dom().contains(key) ==> new_props[key]
                    == props[key]
                &&& new_props["resources"@] is Object
                &&& !now.dom().contains("properties"@)
                &&& now["x-kubernetes-preserve-unknown-fields"@] == Json::Bool(true)
                &&& key != "properties"@ && key != "x-kubernetes-preserve-unknown-fields"@ ==> {
                    &&& now.dom().contains(key) == before.dom().contains(key)
                    &&& before.dom().contains(key) ==> now[key] == before[key]
                }
            }
        }),
{
    reveal_strlit("properties");
    reveal_strlit("x-kubernetes-preserve-unknown-fields");
    assert("properties"@.len() != "x-kubernetes-preserve-unknown-fields"@.len());
    let after = simplified(schema);
    if after != schema {
        assert(after->Object_0.dom() =~= schema->Object_0.dom());
        let props = schema->Object_0["properties"@]->Object_0;
        assert(after->Object_0["properties"@]->Object_0.dom() =~= props.dom());
    }
}

/// The schema of a `spec` is found under the first version of a manifest, where every step
/// of the way is there.
pub proof fn schema_is_found_in_the_first_version(
    versions: Seq<Json>,
    manifest: Map<Seq<char>, Json>,
    spec: Map<Seq<char>, Json>,
    version: Map<Seq<char>, Json>,
    schema: Map<Seq<char>, Json>,
    root: Map<Seq<char>, Json>,
    properties: Map<Seq<char>, Json>,
)
    requires
        manifest.dom().contains("spec"@),
        manifest["spec"@] == Json::Object(spec),
        spec.dom().contains("versions"@),
        spec["versions"@] == Json::Array(versions),
        versions.len() > 0,
        versions[0] == Json::Object(version),
        version.dom().contains("schema"@),
        version["schema"@] == Json::Object(schema),
        schema.dom().contains("openAPIV3Schema"@),
        schema["openAPIV3Schema"@] == Json::Object(root),
        root.dom().contains("properties"@),
        root["properties"@] == Json::Object(properties),
        properties.dom().contains("spec"@),
    ensures
        spec_schema_of(Json::Object(manifest)) == Some(properties["spec"@]),
{
    let to_versions = Seq::<Seq<char>>::empty().push("spec"@).push("versions"@);
    let to_spec = Seq::<Seq<char>>::empty().push("schema"@).push("openAPIV3Schema"@).push(
        "properties"@,
    ).push("spec"@);
    reveal_with_fuel(under, 5);
    assert(to_versions.drop_last() =~= Seq::empty().push("spec"@));
    assert(to_versions.drop_last().drop_last() =~= Seq::empty());
    assert(to_spec.drop_last() =~= Seq::empty().push("schema"@).push("openAPIV3Schema"@).push(
        "properties"@,
    ));
    assert(to_spec.drop_last().drop_last() =~= Seq::empty().push("schema"@).push(
        "openAPIV3Schema"@,
    ));
    assert(to_spec.drop_last().drop_last().drop_last() =~= Seq::empty().push("schema"@));
}

/// The schemas of definitions come into their places one after the other; a definition
/// without a schema, or without a place for it, changes nothing. A file ends with a newline.
pub proof fn definitions_are_placed_one_by_one(
    values: Json,
    first: Seq<Definition>,
    second: Seq<Definition>,
)
    ensures
        with_definitions(values, first + second) == with_definitions(
            with_definitions(values, first),
            second,
        ),
        first.len() == 1 && first[0].spec_schema is None ==> with_definitions(values, first)
            == values,
        first.len() == 1 && first[0].spec_schema is Some ==> {
            let at = placed(
                values,
                values_key(first[0].kind@),
                simplified(json::json(first[0].spec_schema->0)),
            );
            with_definitions(values, first) == (if at is Some {
                at->0
            } else {
                values
            })
        },
        file_text(values) == json::pretty(values).push('\n'),
    decreases second.len(),
{
    reveal_strlit("\n");
    assert(file_text(values) =~= json::pretty(values).push('\n'));
    if second.len() == 0 {
        assert(first + second =~= first);
    } else {
        definitions_are_placed_one_by_one(values, first, second.drop_last());
        assert((first + second).drop_last() =~= first + second.drop_last());
        assert((first + second).last() == second.last());
    }
    if first.len() == 1 {
        reveal_with_fuel(with_definitions, 2);
        assert(first.drop_last() =~= Seq::<Definition>::empty());
        assert(first.last() == first[0]);
    }
}

/// A schema finds its place exactly where the values have a property of that key which says
/// what further properties are; everything but that place stays.
pub proof fn schemas_find_their_place(values: Json, key: Seq<char>, schema: Json, other: Seq<char>)
    requires
        is_plain(key),
    ensures
        ({
            let has_place = values is Object && values->Object_0.dom().contains("properties"@)
                && values->Object_0["properties"@] is Object
                && values->Object_0["properties"@]->Object_0.dom().contains(key)
                && values->Object_0["properties"@]->Object_0[key] is Object
                && values->Object_0["properties"@]->Object_0[key]->Object_0.dom().contains(
                "additionalProperties"@,
            );
            let entry = values->Object_0["properties"@]->Object_0[key]->Object_0;
            let after = placed(values, key, schema)->0;
            let new_entry = after->Object_0["properties"@]->Object_0[key]->Object_0;
            &&& placed(values, key, schema) is Some <==> has_place
            &&& has_place ==> {
                &&& new_entry["additionalProperties"@] == schema
                &&& other != "additionalProperties"@ && entry.dom().contains(other)
                    ==> new_entry[other] == entry[other]
                &&& other != "properties"@ && values->Object_0.dom().contains(other)
                    ==> after->Object_0[other] == values->Object_0[other]
            }
        }),
{
    placed_plainly(values, key, schema);
}

/// A key that is not plain is written into the pointer as it is, so that the place is the one
/// that this pointer leads to.
pub proof fn other_keys_are_left_to_the_pointer(values: Json, key: Seq<char>, schema: Json)
    requires
        key.contains('/') || key.contains('~') || (key.len() > 0 && '0' <= key[0] <= '9'),
    ensures
        placed(values, key, schema) == pointed(
            values,
            "/properties/"@ + key + "/additionalProperties"@,
            schema,
        ),
{
}

} // verus!
