//! Making, changing and removing the sources of models that a user set up.

use vstd::prelude::*;

use crate::config::{self, Config, ConfigView, Profile, ProfileView, Template, TemplateView};
use crate::desktop::checks::{self, assert_profile_runnable, validate_base_url_for_profile};
use crate::json::{self, Json, JsonObject, Tree};
use crate::text::chars::{self, cat2, same};
use crate::text::search;
use crate::text::trim::{self, blank, trimmed};

verus! {

/// The model that is used where a user names none: the first one of a template.
pub open spec fn default_model(t: TemplateView) -> Seq<char> {
    if t.builtin_models.len() > 0 {
        t.builtin_models[0]
    } else {
        Seq::empty()
    }
}

/// The model that is used where a user names none.
pub fn template_default_model(tpl: &Template) -> (r: String)
    ensures
        r@ == default_model(tpl@),
{
    if tpl.builtin_models.len() > 0 {
        let first = tpl.builtin_models[0].as_str().to_string();
        assert(chars::texts(tpl.builtin_models@)[0] == first@);
        first
    } else {
        let none = String::new();
        assert(none@ =~= Seq::empty());
        none
    }
}

/// A text that may be missing, without white space around it; empty where it is missing.
pub open spec fn given(s: Option<Seq<char>>) -> Seq<char> {
    match s {
        Some(t) => trim::trim(t),
        None => Seq::empty(),
    }
}

/// The model of a new profile.
pub open spec fn chosen_model(t: TemplateView, model: Option<Seq<char>>) -> Seq<char> {
    if t.requires_model_override && given(model).len() == 0 {
        default_model(t)
    } else {
        given(model)
    }
}

/// A new profile.
pub open spec fn fresh_profile(
    t: TemplateView,
    id: Seq<char>,
    now: i64,
    name: Seq<char>,
    key: Option<Seq<char>>,
    base_url: Option<Seq<char>>,
    model: Option<Seq<char>>,
) -> ProfileView {
    ProfileView {
        id,
        name: if trim::is_blank(name) {
            t.name
        } else {
            trim::trim(name)
        },
        template_id: t.id,
        category: t.category,
        api_format: t.api_format,
        base_url: if given(base_url).len() > 0 {
            given(base_url)
        } else {
            t.base_url
        },
        api_key: given(key),
        model: chosen_model(t, model),
        website_url: Some(t.website_url),
        icon: Some(t.icon),
        icon_color: Some(t.icon_color),
        sort_index: None,
        created_at: Some(now),
        notes: None,
    }
}

/// What is said where a source needs a model and has none.
pub const MODEL_MISSING: &'static str = "该来源需要选择或填写模型。";

/// A new profile, or why there is none.
pub open spec fn profile_from_template(
    tpl: Option<TemplateView>,
    template_id: Seq<char>,
    adapter: Seq<char>,
    id: Seq<char>,
    now: i64,
    name: Seq<char>,
    key: Option<Seq<char>>,
    base_url: Option<Seq<char>>,
    model: Option<Seq<char>>,
) -> Result<ProfileView, Seq<char>> {
    match tpl {
        None => Err("未知模板："@ + template_id),
        Some(t) => {
            let p = fresh_profile(t, id, now, name, key, base_url, model);
            if t.requires_model_override && p.model.len() == 0 {
                Err(MODEL_MISSING@)
            } else {
                match checks::address_fault(p, adapter) {
                    Some(fault) => Err(fault),
                    None => Ok(p),
                }
            }
        },
    }
}

/// The contents of a template that may be missing.
pub open spec fn opt_template(t: Option<&Template>) -> Option<TemplateView> {
    match t {
        Some(t) => Some(t@),
        None => None,
    }
}

/// A text that may be missing, without white space around it; empty where it is missing.
fn given_text(s: Option<&str>) -> (r: String)
    ensures
        r@ == given(chars::opt_str(s)),
{
    match s {
        Some(t) => trimmed(t),
        None => {
            let none = String::new();
            assert(none@ =~= Seq::empty());
            none
        },
    }
}

/// A new profile from a template, which has the given adapter; or why there is none.
pub fn new_profile(
    tpl: Option<&Template>,
    template_id: &str,
    adapter: &str,
    id: &str,
    now: i64,
    name: &str,
    key: Option<&str>,
    base_url: Option<&str>,
    model: Option<&str>,
) -> (r: Result<Profile, String>)
    ensures
        match r {
            Ok(p) => profile_from_template(
                opt_template(tpl),
                template_id@,
                adapter@,
                id@,
                now,
                name@,
                chars::opt_str(key),
                chars::opt_str(base_url),
                chars::opt_str(model),
            ) == Ok::<ProfileView, Seq<char>>(p@),
            Err(e) => profile_from_template(
                opt_template(tpl),
                template_id@,
                adapter@,
                id@,
                now,
                name@,
                chars::opt_str(key),
                chars::opt_str(base_url),
                chars::opt_str(model),
            ) == Err::<ProfileView, Seq<char>>(e@),
        },
{
    let t = match tpl {
        Some(t) => t,
        None => {
            return Err(cat2("未知模板：", template_id));
        },
    };
    let named = given_text(model);
    let chosen = if t.requires_model_override && named.as_str().is_empty() {
        template_default_model(t)
    } else {
        named
    };
    if t.requires_model_override && chosen.as_str().is_empty() {
        return Err(MODEL_MISSING.to_string());
    }
    let address = given_text(base_url);
    let base = if address.as_str().is_empty() {
        t.base_url.as_str().to_string()
    } else {
        address
    };
    let title = if blank(name) {
        t.name.as_str().to_string()
    } else {
        trimmed(name)
    };
    let p = Profile {
        id: id.to_string(),
        name: title,
        template_id: t.id.as_str().to_string(),
        category: t.category.as_str().to_string(),
        api_format: t.api_format.as_str().to_string(),
        base_url: base,
        api_key: given_text(key),
        model: chosen,
        website_url: Some(t.website_url.as_str().to_string()),
        icon: Some(t.icon.as_str().to_string()),
        icon_color: Some(t.icon_color.as_str().to_string()),
        sort_index: None,
        created_at: Some(now),
        notes: None,
    };
    match validate_base_url_for_profile(&p, adapter) {
        Ok(()) => Ok(p),
        Err(e) => Err(e),
    }
}

/// The configuration with a profile added behind the others.
pub open spec fn with_created(cfg: ConfigView, p: ProfileView) -> ConfigView {
    ConfigView {
        profiles: cfg.profiles.push(
            ProfileView { sort_index: Some(cfg.profiles.len() as i64), ..p },
        ),
        ..cfg
    }
}

/// Adds a profile behind the others.
pub fn create_profile_inner(cfg: &mut Config, profile: Profile)
    ensures
        final(cfg)@ == with_created(old(cfg)@, profile@),
{
    let mut p = profile;
    let n = cfg.profiles.len();
    p.sort_index = Some(n as i64);
    let ghost added = p@;
    cfg.profiles.push(p);
    assert(cfg@.profiles =~= old(cfg)@.profiles.push(added));
}

/// Puts a profile in the place of another.
fn put_profile(cfg: &mut Config, i: usize, profile: Profile)
    requires
        i < old(cfg).profiles@.len(),
    ensures
        final(cfg)@ == (ConfigView {
            profiles: old(cfg)@.profiles.update(i as int, profile@),
            ..old(cfg)@
        }),
{
    let ghost put = profile@;
    cfg.profiles.set(i, profile);
    assert(cfg@.profiles =~= old(cfg)@.profiles.update(i as int, put));
}

/// The configuration with the profile with the given id changed.
pub open spec fn with_profile(cfg: ConfigView, id: Seq<char>, p: ProfileView) -> ConfigView {
    ConfigView { profiles: cfg.profiles.update(config::place_of(cfg.profiles, id), p), ..cfg }
}

/// What is said where there is no profile with an id.
pub open spec fn no_profile(id: Seq<char>) -> Seq<char> {
    "找不到 profile："@ + id
}

/// A profile with another name and other notes.
pub open spec fn with_metadata(
    p: ProfileView,
    name: Seq<char>,
    notes: Option<Seq<char>>,
) -> ProfileView {
    ProfileView {
        name: if trim::is_blank(name) {
            "未命名"@
        } else {
            trim::trim(name)
        },
        notes: if given(notes).len() > 0 {
            Some(given(notes))
        } else {
            None
        },
        ..p
    }
}

/// Changes the name and the notes of a profile.
pub fn update_profile_metadata_inner(
    cfg: &mut Config,
    id: &str,
    name: &str,
    notes: Option<&str>,
) -> (r: Result<(), String>)
    ensures
        match r {
            Ok(()) => config::find(old(cfg)@.profiles, id@) is Some && final(cfg)@ == with_profile(
                old(cfg)@,
                id@,
                with_metadata(
                    config::find(old(cfg)@.profiles, id@)->Some_0,
                    name@,
                    chars::opt_str(notes),
                ),
            ),
            Err(e) => config::find(old(cfg)@.profiles, id@) is None && final(cfg)@ == old(cfg)@
                && e@ == no_profile(id@),
        },
{
    let i = cfg.position_of(id);
    if i >= cfg.profiles.len() {
        return Err(cat2("找不到 profile：", id));
    }
    let mut p = cfg.profiles[i].clone();
    p.name = if blank(name) {
        "未命名".to_string()
    } else {
        trimmed(name)
    };
    let text = given_text(notes);
    p.notes = if text.as_str().is_empty() {
        None
    } else {
        Some(text)
    };
    put_profile(cfg, i, p);
    Ok(())
}

/// A profile with other connection data. What is not given stays, and a blank key counts
/// as not given.
pub open spec fn edited(
    p: ProfileView,
    base_url: Option<Seq<char>>,
    api_format: Option<Seq<char>>,
    model: Option<Seq<char>>,
    key: Option<Seq<char>>,
) -> ProfileView {
    ProfileView {
        base_url: match base_url {
            Some(v) => trim::trim(v),
            None => p.base_url,
        },
        api_format: match api_format {
            Some(v) => trim::trim(v),
            None => p.api_format,
        },
        model: match model {
            Some(v) => trim::trim(v),
            None => p.model,
        },
        api_key: if given(key).len() > 0 {
            given(key)
        } else {
            p.api_key
        },
        ..p
    }
}

/// Changes the connection data of a profile. What is not given stays, and a blank key
/// counts as not given.
pub fn apply_connection_edit(
    profile: &mut Profile,
    base_url: Option<&str>,
    api_format: Option<&str>,
    model: Option<&str>,
    key: Option<&str>,
)
    ensures
        final(profile)@ == edited(
            old(profile)@,
            chars::opt_str(base_url),
            chars::opt_str(api_format),
            chars::opt_str(model),
            chars::opt_str(key),
        ),
{
    if let Some(v) = base_url {
        profile.base_url = trimmed(v);
    }
    if let Some(v) = api_format {
        profile.api_format = trimmed(v);
    }
    if let Some(v) = model {
        profile.model = trimmed(v);
    }
    let text = given_text(key);
    if !text.as_str().is_empty() {
        profile.api_key = text;
    }
}

/// A profile with changed connection data, to be tried before it is stored; or why it is
/// not tried. Its template has the given adapter.
pub fn connection_candidate(
    cfg: &Config,
    id: &str,
    base_url: Option<&str>,
    api_format: Option<&str>,
    model: Option<&str>,
    key: Option<&str>,
    adapter: &str,
) -> (r: Result<Profile, String>)
    ensures
        ({
            let before = config::find(cfg@.profiles, id@);
            let after = edited(
                before->Some_0,
                chars::opt_str(base_url),
                chars::opt_str(api_format),
                chars::opt_str(model),
                chars::opt_str(key),
            );
            let fault = if before is None {
                Some(no_profile(id@))
            } else {
                checks::run_fault(after, adapter@)
            };
            match r {
                Ok(p) => fault is None && p@ == after,
                Err(e) => fault == Some(e@),
            }
        }),
{
    let mut p = match cfg.profile_by_id(id) {
        Some(p) => p.clone(),
        None => {
            return Err(cat2("找不到 profile：", id));
        },
    };
    apply_connection_edit(&mut p, base_url, api_format, model, key);
    match assert_profile_runnable(&p, adapter) {
        Ok(()) => Ok(p),
        Err(e) => Err(e),
    }
}

/// Whether a source needs a model: so does each whose template is not known.
pub open spec fn needs_model(tpl: Option<TemplateView>) -> bool {
    match tpl {
        Some(t) => t.requires_model_override,
        None => true,
    }
}

/// What is wrong with changed connection data, if anything is.
pub open spec fn connection_fault(
    p: ProfileView,
    adapter: Seq<char>,
    tpl: Option<TemplateView>,
) -> Option<Seq<char>> {
    match checks::address_fault(p, adapter) {
        Some(fault) => Some(fault),
        None => if needs_model(tpl) && trim::is_blank(p.model) {
            Some(MODEL_MISSING@)
        } else {
            None
        },
    }
}

/// Changes the connection data of a profile, whose template, if it is known, is `tpl` and
/// has the given adapter.
pub fn update_profile_connection_inner(
    cfg: &mut Config,
    id: &str,
    base_url: Option<&str>,
    api_format: Option<&str>,
    model: Option<&str>,
    key: Option<&str>,
    adapter: &str,
    tpl: Option<&Template>,
) -> (r: Result<(), String>)
    ensures
        ({
            let before = config::find(old(cfg)@.profiles, id@);
            let after = edited(
                before->Some_0,
                chars::opt_str(base_url),
                chars::opt_str(api_format),
                chars::opt_str(model),
                chars::opt_str(key),
            );
            let fault = if before is None {
                Some(no_profile(id@))
            } else {
                connection_fault(after, adapter@, opt_template(tpl))
            };
            match r {
                Ok(()) => fault is None && final(cfg)@ == with_profile(old(cfg)@, id@, after),
                Err(e) => fault == Some(e@) && final(cfg)@ == old(cfg)@,
            }
        }),
{
    let i = cfg.position_of(id);
    if i >= cfg.profiles.len() {
        return Err(cat2("找不到 profile：", id));
    }
    let mut p = cfg.profiles[i].clone();
    apply_connection_edit(&mut p, base_url, api_format, model, key);
    if let Err(e) = validate_base_url_for_profile(&p, adapter) {
        return Err(e);
    }
    let needed = match tpl {
        Some(t) => t.requires_model_override,
        None => true,
    };
    if needed && blank(p.model.as_str()) {
        return Err(MODEL_MISSING.to_string());
    }
    put_profile(cfg, i, p);
    Ok(())
}

/// A profile without its key.
pub open spec fn without_key(p: ProfileView) -> ProfileView {
    ProfileView { api_key: Seq::empty(), ..p }
}

/// Removes the key of a profile.
pub fn clear_profile_key_inner(cfg: &mut Config, id: &str) -> (r: Result<(), String>)
    ensures
        match r {
            Ok(()) => config::find(old(cfg)@.profiles, id@) is Some && final(cfg)@ == with_profile(
                old(cfg)@,
                id@,
                without_key(config::find(old(cfg)@.profiles, id@)->Some_0),
            ),
            Err(e) => config::find(old(cfg)@.profiles, id@) is None && final(cfg)@ == old(cfg)@
                && e@ == no_profile(id@),
        },
{
    let i = cfg.position_of(id);
    if i >= cfg.profiles.len() {
        return Err(cat2("找不到 profile：", id));
    }
    let mut p = cfg.profiles[i].clone();
    let none = String::new();
    assert(none@ =~= Seq::empty());
    p.api_key = none;
    put_profile(cfg, i, p);
    Ok(())
}

/// The profiles with another id.
pub open spec fn others(v: Seq<ProfileView>, id: Seq<char>) -> Seq<ProfileView>
    decreases v.len(),
{
    if v.len() == 0 {
        Seq::empty()
    } else if v.last().id == id {
        others(v.drop_last(), id)
    } else {
        others(v.drop_last(), id).push(v.last())
    }
}

/// The configuration without the profiles with an id. If one of them was in use, none is.
pub open spec fn without_profile(cfg: ConfigView, id: Seq<char>) -> ConfigView {
    ConfigView {
        profiles: others(cfg.profiles, id),
        active_id: if cfg.active_id == id {
            Seq::empty()
        } else {
            cfg.active_id
        },
        ..cfg
    }
}

/// The profiles with another id.
fn other_profiles(v: &Vec<Profile>, id: &str) -> (r: Vec<Profile>)
    ensures
        config::profile_views(r@) == others(config::profile_views(v@), id@),
{
    let ghost views = config::profile_views(v@);
    let mut out: Vec<Profile> = Vec::new();
    assert(config::profile_views(out@) =~= Seq::empty());
    let n = v.len();
    let mut i: usize = 0;
    while i < n
        invariant
            n == v@.len(),
            i <= n,
            views == config::profile_views(v@),
            config::profile_views(out@) == others(views.take(i as int), id@),
        decreases n - i,
    {
        proof {
            assert(views.take(i + 1).drop_last() =~= views.take(i as int));
            assert(views.take(i + 1).last() == v@[i as int]@);
        }
        if !same(v[i].id.as_str(), id) {
            let ghost before = config::profile_views(out@);
            let copy = v[i].clone();
            out.push(copy);
            assert(config::profile_views(out@) =~= before.push(v@[i as int]@));
        }
        i = i + 1;
    }
    assert(views.take(n as int) =~= views);
    out
}

/// Whether the profile with an id is the one in use.
pub open spec fn is_in_use(cfg: ConfigView, id: Seq<char>) -> bool {
    cfg.active_id == id
}

/// The profile that was put in use is, and no other.
pub proof fn lemma_in_use(cfg: ConfigView, id: Seq<char>, other: Seq<char>)
    ensures
        is_in_use(with_active(cfg, id), id),
        other != id ==> !is_in_use(with_active(cfg, id), other),
{
}

/// Whether a change to the profile with an id stops the proxy: it does, if the profile
/// is the one in use.
pub fn stops_proxy(cfg: &Config, id: &str) -> (r: bool)
    ensures
        r == is_in_use(cfg@, id@),
{
    same(cfg.active_id.as_str(), id)
}

/// Removes the profiles with an id.
pub fn delete_profile_inner(cfg: &mut Config, id: &str) -> (r: Result<(), String>)
    ensures
        match r {
            Ok(()) => config::find(old(cfg)@.profiles, id@) is Some && final(cfg)@
                == without_profile(old(cfg)@, id@),
            Err(e) => config::find(old(cfg)@.profiles, id@) is None && final(cfg)@ == old(cfg)@
                && e@ == no_profile(id@),
        },
{
    let i = cfg.position_of(id);
    if i >= cfg.profiles.len() {
        return Err(cat2("找不到 profile：", id));
    }
    let kept = other_profiles(&cfg.profiles, id);
    cfg.profiles = kept;
    if same(cfg.active_id.as_str(), id) {
        let none = String::new();
        assert(none@ =~= Seq::empty());
        cfg.active_id = none;
    }
    Ok(())
}

/// What is reported where another profile was put in use, or was not.
pub open spec fn active_report(committed: bool, active_id: Seq<char>, hint: Seq<char>) -> Tree {
    Tree::Object(
        seq![
            ("committed"@, Tree::Bool(committed)),
            ("active_id"@, Tree::Text(active_id)),
            ("hint"@, Tree::Text(hint)),
        ],
    )
}

/// What is reported where another profile was put in use, or was not.
fn active_reply(committed: bool, active_id: &str, hint: &str) -> (r: Json)
    ensures
        r@ == active_report(committed, active_id@, hint@),
{
    let mut o = JsonObject::new();
    o.put("committed", Json::Bool(committed));
    o.put("active_id", Json::text(active_id));
    o.put("hint", Json::text(hint));
    assert(o@ =~= seq![
        ("committed"@, Tree::Bool(committed)),
        ("active_id"@, Tree::Text(active_id@)),
        ("hint"@, Tree::Text(hint@)),
    ]);
    o.done()
}

/// The configuration with another profile in use.
pub open spec fn with_active(cfg: ConfigView, id: Seq<char>) -> ConfigView {
    ConfigView { active_id: id, ..cfg }
}

/// Puts a profile in use. `verdict` is what came of trying it, which is not asked where
/// `skip_verify` is set. The second part of the result tells whether it was put in use.
pub fn set_active_profile(
    cfg: &mut Config,
    id: &str,
    skip_verify: bool,
    verdict: Result<(), String>,
) -> (r: Result<(Json, bool), String>)
    ensures
        match r {
            Ok((reply, committed)) => {
                &&& config::find(old(cfg)@.profiles, id@) is Some
                &&& committed == (skip_verify || verdict is Ok)
                &&& if committed {
                    final(cfg)@ == with_active(old(cfg)@, id@) && reply@ == active_report(
                        true,
                        id@,
                        if skip_verify {
                            "已跳过校验并设为当前。"@
                        } else {
                            "已设为当前。"@
                        },
                    )
                } else {
                    final(cfg)@ == old(cfg)@ && reply@ == active_report(
                        false,
                        old(cfg)@.active_id,
                        verdict->Err_0@,
                    )
                }
            },
            Err(e) => config::find(old(cfg)@.profiles, id@) is None && final(cfg)@ == old(cfg)@
                && e@ == no_profile(id@),
        },
{
    if cfg.profile_by_id(id).is_none() {
        return Err(cat2("找不到 profile：", id));
    }
    if !skip_verify {
        if let Err(e) = verdict {
            let reply = active_reply(false, cfg.active_id.as_str(), e.as_str());
            return Ok((reply, false));
        }
    }
    cfg.active_id = id.to_string();
    let hint = if skip_verify {
        "已跳过校验并设为当前。"
    } else {
        "已设为当前。"
    };
    Ok((active_reply(true, id, hint), true))
}

/// Where a profile stands among those with another id than the one that was removed.
proof fn lemma_find_in_others(v: Seq<ProfileView>, id: Seq<char>, other: Seq<char>)
    ensures
        config::find(others(v, id), other) == if other == id {
            None::<ProfileView>
        } else {
            config::find(v, other)
        },
    decreases v.len(),
{
    let o = others(v, id);
    if v.len() == 0 {
        config::lemma_place_of(v, other);
        config::lemma_place_of(o, other);
    } else {
        let t = v.drop_last();
        let ot = others(t, id);
        lemma_find_in_others(t, id, other);
        lemma_find_pushed(t, v.last(), other);
        assert(t.push(v.last()) =~= v);
        if v.last().id != id {
            lemma_find_pushed(ot, v.last(), other);
        }
    }
}

/// What is found in a list with one more profile at its end.
proof fn lemma_find_pushed(v: Seq<ProfileView>, p: ProfileView, id: Seq<char>)
    ensures
        config::find(v.push(p), id) == match config::find(v, id) {
            Some(q) => Some(q),
            None => if p.id == id {
                Some(p)
            } else {
                None
            },
        },
{
    let k = config::place_of(v, id);
    config::lemma_place_of(v, id);
    let w = v.push(p);
    if k < v.len() {
        config::lemma_place_of_is(w, id, k);
    } else if p.id == id {
        config::lemma_place_of_is(w, id, v.len() as int);
    } else {
        config::lemma_place_of_is(w, id, w.len() as int);
    }
}

/// A profile that was removed is found no more, and is not in use; each other is found as
/// before.
pub proof fn lemma_find_after_delete(cfg: ConfigView, id: Seq<char>, other: Seq<char>)
    ensures
        config::find(without_profile(cfg, id).profiles, id) is None,
        other != id ==> config::find(without_profile(cfg, id).profiles, other) == config::find(
            cfg.profiles,
            other,
        ),
        id.len() > 0 ==> without_profile(cfg, id).active_id != id,
{
    lemma_find_in_others(cfg.profiles, id, id);
    lemma_find_in_others(cfg.profiles, id, other);
}

/// A profile that was changed is found changed; each other is found as before, and which
/// one is in use stays.
pub proof fn lemma_find_after_change(
    cfg: ConfigView,
    id: Seq<char>,
    p: ProfileView,
    other: Seq<char>,
)
    requires
        config::find(cfg.profiles, id) is Some,
        p.id == id,
    ensures
        config::find(with_profile(cfg, id, p).profiles, id) == Some(p),
        other != id ==> config::find(with_profile(cfg, id, p).profiles, other) == config::find(
            cfg.profiles,
            other,
        ),
        with_profile(cfg, id, p).active_id == cfg.active_id,
{
    let v = cfg.profiles;
    let k = config::place_of(v, id);
    config::lemma_place_of(v, id);
    let w = with_profile(cfg, id, p).profiles;
    config::lemma_place_of_is(w, id, k);
    let j = config::place_of(v, other);
    config::lemma_place_of(v, other);
    if other != id {
        assert forall|i: int| 0 <= i < j implies (#[trigger] w[i]).id != other by {
            if i != k {
                assert(w[i] == v[i]);
            }
        }
        config::lemma_place_of_is(w, other, j);
    }
}

/// A profile that was added is found, if its id is new; each other is found as before.
pub proof fn lemma_find_after_create(v: Seq<ProfileView>, p: ProfileView, other: Seq<char>)
    requires
        config::find(v, p.id) is None,
    ensures
        config::find(v.push(p), p.id) == Some(p),
        other != p.id ==> config::find(v.push(p), other) == config::find(v, other),
{
    lemma_find_pushed(v, p, p.id);
    lemma_find_pushed(v, p, other);
}

/// A change of the connection keeps the id, the name and the template; a blank key keeps
/// the key that was there.
pub proof fn lemma_edit_keeps(
    p: ProfileView,
    base_url: Option<Seq<char>>,
    api_format: Option<Seq<char>>,
    model: Option<Seq<char>>,
    key: Option<Seq<char>>,
)
    ensures
        ({
            let e = edited(p, base_url, api_format, model, key);
            &&& e.id == p.id && e.name == p.name && e.template_id == p.template_id
            &&& key is None || trim::is_blank(key->Some_0) ==> e.api_key == p.api_key
            &&& edited(e, base_url, api_format, model, key) == e
        }),
{
}

/// A profile that is made from a template is one of that template: it has its id, its
/// interface and its category. It has the key that was given, and the name, the address
/// and the model that were given, or else those of the template.
pub proof fn lemma_new_profile(
    t: TemplateView,
    template_id: Seq<char>,
    adapter: Seq<char>,
    id: Seq<char>,
    now: i64,
    name: Seq<char>,
    key: Option<Seq<char>>,
    base_url: Option<Seq<char>>,
    model: Option<Seq<char>>,
)
    ensures
        profile_from_template(
            Some(t),
            template_id,
            adapter,
            id,
            now,
            name,
            key,
            base_url,
            model,
        ) matches Ok(p) ==> {
            &&& p.id == id && p.created_at == Some(now)
            &&& p.template_id == t.id && p.api_format == t.api_format && p.category == t.category
            &&& p.website_url == Some(t.website_url) && p.icon == Some(t.icon) && p.icon_color
                == Some(t.icon_color)
            &&& p.name == if trim::is_blank(name) {
                t.name
            } else {
                trim::trim(name)
            }
            &&& key matches Some(k) ==> p.api_key == trim::trim(k)
            &&& key is None ==> p.api_key.len() == 0
            &&& (base_url matches Some(u) && !trim::is_blank(u)) ==> p.base_url == trim::trim(
                base_url->0,
            )
            &&& (base_url is None || trim::is_blank(base_url->0)) ==> p.base_url == t.base_url
            &&& (model matches Some(m) && !trim::is_blank(m)) ==> p.model == trim::trim(model->0)
            &&& (model is None || trim::is_blank(model->0)) ==> p.model
                == if t.requires_model_override {
                t.builtin_models[0]
            } else {
                Seq::empty()
            }
        },
{
    if let Some(u) = base_url {
        trim::lemma_blank(u);
    }
    if let Some(m) = model {
        trim::lemma_blank(m);
    }
}

/// A profile that is made from a template with an interface that is supported, and with a
/// key, can be run as it is, if the template needs no address or else needs a model; where
/// that is the template's first, it is one that is not blank.
pub proof fn lemma_new_profile_runs(
    t: TemplateView,
    template_id: Seq<char>,
    adapter: Seq<char>,
    id: Seq<char>,
    now: i64,
    name: Seq<char>,
    key: Seq<char>,
    base_url: Option<Seq<char>>,
    model: Option<Seq<char>>,
)
    requires
        t.api_format == "anthropic"@ || t.api_format == "openai_chat"@ || t.api_format
            == "openai_responses"@,
        !trim::is_blank(key),
        adapter == "deepseek"@ || adapter == "qwen"@ || (t.requires_model_override && (
        t.builtin_models.len() > 0 ==> !trim::is_blank(t.builtin_models[0]))),
    ensures
        profile_from_template(
            Some(t),
            template_id,
            adapter,
            id,
            now,
            name,
            Some(key),
            base_url,
            model,
        ) matches Ok(p) ==> checks::run_fault(p, adapter) is None,
{
    trim::lemma_blank(key);
    trim::lemma_trim_idempotent(key);
    trim::lemma_blank(trim::trim(key));
    if let Some(m) = model {
        trim::lemma_trim_idempotent(m);
        trim::lemma_blank(m);
        trim::lemma_blank(trim::trim(m));
    }
}

/// A profile that was added is found under its id, if that is new, as it was made; the
/// profile in use, the ports and the secret stay, and so does each other profile.
pub proof fn lemma_created_profile_is_found(cfg: ConfigView, p: ProfileView, other: Seq<char>)
    requires
        config::find(cfg.profiles, p.id) is None,
    ensures
        ({
            let after = with_created(cfg, p);
            &&& config::find(after.profiles, p.id) matches Some(found) && found.api_key
                == p.api_key && found.base_url == p.base_url && found.model == p.model
                && found.api_format == p.api_format && found.template_id == p.template_id
                && found.name == p.name && found.sort_index == Some(cfg.profiles.len() as i64)
            &&& other != p.id ==> config::find(after.profiles, other) == config::find(
                cfg.profiles,
                other,
            )
            &&& after.profiles.len() == cfg.profiles.len() + 1
            &&& after.active_id == cfg.active_id && after.secret == cfg.secret
            &&& after.proxy_port == cfg.proxy_port && after.sandbox_port == cfg.sandbox_port
            &&& after.mode == cfg.mode
        }),
{
    let added = ProfileView { sort_index: Some(cfg.profiles.len() as i64), ..p };
    lemma_find_after_create(cfg.profiles, added, other);
}

/// A change of the connection puts in what was given, without white space around it, each
/// part in its own place, and keeps the rest.
pub proof fn lemma_edit_sets(
    p: ProfileView,
    base_url: Option<Seq<char>>,
    api_format: Option<Seq<char>>,
    model: Option<Seq<char>>,
    key: Option<Seq<char>>,
)
    ensures
        ({
            let e = edited(p, base_url, api_format, model, key);
            &&& base_url matches Some(v) ==> e.base_url == trim::trim(v)
            &&& base_url is None ==> e.base_url == p.base_url
            &&& api_format matches Some(v) ==> e.api_format == trim::trim(v)
            &&& api_format is None ==> e.api_format == p.api_format
            &&& model matches Some(v) ==> e.model == trim::trim(v)
            &&& model is None ==> e.model == p.model
            &&& (key matches Some(v) && !trim::is_blank(v)) ==> e.api_key == trim::trim(key->0)
            &&& e.category == p.category && e.notes == p.notes && e.sort_index == p.sort_index
                && e.created_at == p.created_at
        }),
{
}

/// A change of the name and the notes changes nothing that a connection needs.
pub proof fn lemma_metadata_sets(p: ProfileView, name: Seq<char>, notes: Option<Seq<char>>)
    ensures
        ({
            let e = with_metadata(p, name, notes);
            &&& !trim::is_blank(name) ==> e.name == trim::trim(name)
            &&& trim::is_blank(name) ==> e.name == "未命名"@
            &&& (notes matches Some(v) && !trim::is_blank(v)) ==> e.notes == Some(
                trim::trim(notes->0),
            )
            &&& notes is None || trim::is_blank(notes->0) ==> e.notes is None
            &&& e.id == p.id && e.template_id == p.template_id && e.api_format == p.api_format
            &&& e.base_url == p.base_url && e.model == p.model && e.api_key == p.api_key
        }),
{
}

/// Without its key a profile is what it was, but cannot be run.
pub proof fn lemma_cleared_key(p: ProfileView, adapter: Seq<char>)
    ensures
        without_key(p).api_key.len() == 0,
        without_key(p).id == p.id && without_key(p).base_url == p.base_url && without_key(p).model
            == p.model && without_key(p).api_format == p.api_format,
        checks::run_fault(without_key(p), adapter) is Some,
{
    trim::lemma_blank(without_key(p).api_key);
}

/// The profile that was put in use is the one that is in use, and no profile changes by it.
pub proof fn lemma_activated(cfg: ConfigView, id: Seq<char>)
    ensures
        ({
            let after = with_active(cfg, id);
            &&& config::find(after.profiles, after.active_id) == config::find(cfg.profiles, id)
            &&& after.profiles == cfg.profiles
            &&& after.proxy_port == cfg.proxy_port && after.sandbox_port == cfg.sandbox_port
                && after.secret == cfg.secret
        }),
{
}

/// Of another profile it is reported whether it was put in use, which one is in use now,
/// and what is to be said.
pub proof fn lemma_active_report(committed: bool, active_id: Seq<char>, hint: Seq<char>)
    ensures
        ({
            let report = active_report(committed, active_id, hint);
            &&& json::bool_field(report, "committed"@) == Some(committed)
            &&& json::text_field(report, "active_id"@) == Some(active_id)
            &&& json::text_field(report, "hint"@) == Some(hint)
        }),
{
    let m = active_report(committed, active_id, hint)->Object_0;
    reveal_strlit("committed");
    reveal_strlit("active_id");
    reveal_strlit("hint");
    assert("committed"@[0] != "active_id"@[0]);
    assert("committed"@.len() != "hint"@.len());
    assert("active_id"@.len() != "hint"@.len());
    json::lemma_member(m, "committed"@, 0);
    json::lemma_member(m, "active_id"@, 1);
    json::lemma_member(m, "hint"@, 2);
}

/// A changed connection is stored exactly if its address can be used and, where its source
/// needs a model, it has one; a source whose template is not known needs one.
pub proof fn lemma_stored_connection(p: ProfileView, adapter: Seq<char>, tpl: Option<TemplateView>)
    ensures
        connection_fault(p, adapter, tpl) is None <==> {
            &&& checks::address_fault(p, adapter) is None
            &&& (tpl matches Some(t) && !t.requires_model_override) || !trim::is_blank(p.model)
        },
{
}

/// What is given is taken without the white space around it, and what is not given is
/// empty; a template without models has no first one.
pub proof fn lemma_given(text: Seq<char>, t: TemplateView, id: Seq<char>)
    ensures
        given(Some(text)) == trim::trim(text),
        given(None).len() == 0,
        t.builtin_models.len() > 0 ==> default_model(t) == t.builtin_models[0],
        t.builtin_models.len() == 0 ==> default_model(t).len() == 0,
        search::ends(no_profile(id), id),
{
    search::lemma_ends_joined("找不到 profile："@, id);
}

/// The others are those with another id, all of them, in their order.
pub proof fn lemma_others(v: Seq<ProfileView>, p: ProfileView, id: Seq<char>)
    ensures
        p.id == id ==> others(v.push(p), id) == others(v, id),
        p.id != id ==> others(v.push(p), id) == others(v, id).push(p),
        others(Seq::empty(), id).len() == 0,
{
    assert(v.push(p).drop_last() =~= v);
}

} // verus!
