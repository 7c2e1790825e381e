//! Materials: the textures a material instance names among its texture
//! parameter values.
use vstd::prelude::*;
use crate::archives::str_eq;
use crate::assets::{ParserResult, error_msg, first_object_name};
use crate::assets::exports::first_named;
use crate::assets::properties::{last_named, FPropertyTag, FPropertyTagType, StructType, UObject};
use crate::dispatch::LoaderGlobalData;
use crate::mapping::opt_view;

verus! {

/// The value of the last of `props` named `name`.
pub open spec fn last_value(props: Seq<FPropertyTag>, name: Seq<char>) -> Option<FPropertyTagType> {
    match last_named(props, name) {
        Some(i) => Some(props[i].tag),
        None => None,
    }
}

/// The properties of a struct value without a layout of its own.
pub open spec fn struct_props(v: FPropertyTagType) -> Option<Seq<FPropertyTag>> {
    match v {
        FPropertyTagType::StructProperty(s) => match s.struct_type {
            StructType::Fallback(ps) => Some(ps@),
            _ => None,
        },
        _ => None,
    }
}

/// A texture parameter of a material: the name of its parameter (the `Name`
/// of its `ParameterInfo`) and the name of the texture its `ParameterValue`
/// imports, by the global names.
#[verifier::opaque]
pub open spec fn texture_parameter(v: FPropertyTagType, g: &LoaderGlobalData) -> Option<(Seq<char>, Seq<char>)> {
    match struct_props(v) {
        Some(ps) => {
            let texture = match last_value(ps, "ParameterValue"@) {
                Some(FPropertyTagType::ObjectProperty(index)) => match index.import {
                    Some(o) => first_object_name(g, o),
                    None => None,
                },
                _ => None,
            };
            let kind = match last_value(ps, "ParameterInfo"@) {
                Some(info) => match struct_props(info) {
                    Some(ips) => match last_value(ips, "Name"@) {
                        Some(FPropertyTagType::NameProperty(n)) => Some(n@),
                        _ => None,
                    },
                    None => None,
                },
                None => None,
            };
            match (kind, texture) {
                (Some(k), Some(t)) => Some((k, t)),
                _ => None,
            }
        },
        None => None,
    }
}

/// The texture of the last parameter of `params` named `kind`.
pub open spec fn texture_of_kind(params: Seq<FPropertyTagType>, g: &LoaderGlobalData, kind: Seq<char>) -> Option<Seq<char>>
    decreases params.len(),
{
    if params.len() == 0 {
        None
    } else {
        match texture_parameter(params.last(), g) {
            Some((k, t)) => if k == kind {
                Some(t)
            } else {
                texture_of_kind(params.drop_last(), g, kind)
            },
            None => None,
        }
    }
}

/// Every texture parameter of `params` reads.
pub open spec fn parameters_ok(params: Seq<FPropertyTagType>, g: &LoaderGlobalData) -> bool {
    forall|i: int| 0 <= i < params.len() ==> #[trigger] texture_parameter(params[i], g) is Some
}

/// The texture parameter values of a material object: its first property
/// named `TextureParameterValues`, when it is an array.
pub open spec fn material_parameters(props: Seq<FPropertyTag>) -> Option<Seq<FPropertyTagType>> {
    match first_named(props, "TextureParameterValues"@) {
        Some(i) => match props[i].tag {
            FPropertyTagType::ArrayProperty(a) => Some(a.data@),
            _ => None,
        },
        None => None,
    }
}

/// The last property of `props` named `name`.
fn find_last<'a>(props: &'a Vec<FPropertyTag>, name: &str) -> (r: Option<&'a FPropertyTagType>)
    ensures
        match last_named(props@, name@) {
            Some(i) => r == Some(&props@[i].tag),
            None => r is None,
        },
{
    let ghost ps = props@;
    let mut found: Option<usize> = None;
    let mut i: usize = 0;
    while i < props.len()
        invariant
            ps == props@,
            i <= ps.len(),
            match last_named(ps.take(i as int), name@) {
                Some(j) => 0 <= j < i && found == Some(j as usize),
                None => found is None,
            },
        decreases ps.len() - i,
    {
        assert(ps.take(i + 1).drop_last() =~= ps.take(i as int));
        if str_eq(props[i].name.as_str(), name) {
            found = Some(i);
        }
        i = i + 1;
    }
    assert(ps.take(ps.len() as int) =~= ps);
    match found {
        Some(j) => Some(&props[j].tag),
        None => None,
    }
}

/// The properties of a struct value without a layout of its own.
fn struct_contents(v: &FPropertyTagType) -> (r: Option<&Vec<FPropertyTag>>)
    ensures
        match struct_props(*v) {
            Some(ps) => r matches Some(x) && x@ == ps,
            None => r is None,
        },
{
    match v {
        FPropertyTagType::StructProperty(s) => s.get_contents(),
        _ => None,
    }
}

/// Reads one texture parameter of a material.
fn read_texture_parameter(v: &FPropertyTagType, global: &LoaderGlobalData) -> (r: ParserResult<(String, String)>)
    ensures
        match texture_parameter(*v, global) {
            Some((k, t)) => r matches Ok(p) && p.0@ == k && p.1@ == t,
            None => r is Err,
        },
{
    proof {
        reveal(texture_parameter);
    }
    let props = match struct_contents(v) {
        Some(ps) => ps,
        None => return Err(error_msg("not a struct")),
    };
    let texture = match find_last(props, "ParameterValue") {
        Some(FPropertyTagType::ObjectProperty(index)) => match index.get_import() {
            Some(o) => match global.get_package_name(o) {
                Some(n) => n,
                None => return Err(error_msg("Import does not exist")),
            },
            None => return Err(error_msg("Import does not exist")),
        },
        _ => return Err(error_msg("Not an FPackageIndex")),
    };
    let info = match find_last(props, "ParameterInfo") {
        Some(i) => i,
        None => return Err(error_msg("Not a struct")),
    };
    let info_props = match struct_contents(info) {
        Some(ps) => ps,
        None => return Err(error_msg("Not a struct")),
    };
    let kind = match find_last(info_props, "Name") {
        Some(FPropertyTagType::NameProperty(n)) => n,
        _ => return Err(error_msg("Not a name")),
    };
    Ok((kind.clone(), texture.to_owned()))
}

/// The diffuse and normal textures of a material: among its texture parameter
/// values, the last named `Diffuse` and the last named `Normals`.
pub fn material_textures(obj: &UObject, global: &LoaderGlobalData) -> (r: ParserResult<(String, String)>)
    ensures
        match material_parameters(obj.properties@) {
            Some(params) => if parameters_ok(params, global) {
                match (texture_of_kind(params, global, "Diffuse"@), texture_of_kind(params, global, "Normals"@)) {
                    (Some(d), Some(n)) => r matches Ok(p) && p.0@ == d && p.1@ == n,
                    _ => r is Err,
                }
            } else {
                r is Err
            },
            None => r is Err,
        },
{
    let ghost props = obj.properties@;
    assert(props.subrange(0, props.len() as int) =~= props);
    let mut i: usize = 0;
    while i < obj.properties.len()
        invariant
            props == obj.properties@,
            i <= props.len(),
            first_named(props, "TextureParameterValues"@) == match first_named(
                props.subrange(i as int, props.len() as int),
                "TextureParameterValues"@,
            ) {
                Some(j) => Some(j + i),
                None => None,
            },
        ensures
            i < props.len() ==> props[i as int].name@ == "TextureParameterValues"@,
        decreases props.len() - i,
    {
        assert(props.subrange(i as int, props.len() as int).drop_first() =~= props.subrange(i + 1, props.len() as int));
        if str_eq(obj.properties[i].name.as_str(), "TextureParameterValues") {
            break;
        }
        i = i + 1;
    }
    if i == obj.properties.len() {
        assert(props.subrange(i as int, props.len() as int) =~= Seq::<FPropertyTag>::empty());
        return Err(error_msg("TextureParameterValues not found"));
    }
    assert(props.subrange(i as int, props.len() as int)[0] == props[i as int]);
    let params = match &obj.properties[i].tag {
        FPropertyTagType::ArrayProperty(a) => a.get_data(),
        _ => return Err(error_msg("not an array")),
    };
    let ghost ps = params@;
    assert(first_named(props, "TextureParameterValues"@) == Some(i as int));
    assert(material_parameters(obj.properties@) == Some(ps));
    let mut diffuse: Option<String> = None;
    let mut normal: Option<String> = None;
    let mut k: usize = 0;
    while k < params.len()
        invariant
            ps == params@,
            material_parameters(obj.properties@) == Some(ps),
            k <= ps.len(),
            parameters_ok(ps.take(k as int), global),
            opt_view(diffuse) == texture_of_kind(ps.take(k as int), global, "Diffuse"@),
            opt_view(normal) == texture_of_kind(ps.take(k as int), global, "Normals"@),
        decreases ps.len() - k,
    {
        let (kind, texture) = match read_texture_parameter(&params[k], global) {
            Ok(p) => p,
            Err(e) => {
                assert(texture_parameter(ps[k as int], global) is None);
                return Err(e);
            },
        };
        assert(ps.take(k + 1).drop_last() =~= ps.take(k as int));
        assert(ps.take(k + 1).last() == ps[k as int]);
        if str_eq(kind.as_str(), "Diffuse") {
            diffuse = Some(texture.clone());
        }
        if str_eq(kind.as_str(), "Normals") {
            normal = Some(texture);
        }
        k = k + 1;
    }
    assert(ps.take(ps.len() as int) =~= ps);
    match (diffuse, normal) {
        (Some(d), Some(n)) => Ok((d, n)),
        _ => Err(error_msg("Material texture not found")),
    }
}

} // verus!
