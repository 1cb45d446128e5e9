//! The configuration: the sources of models that a user set up, and which of them
//! is in use.

use vstd::prelude::*;

use crate::text::chars::{self, copy_opt, same};

verus! {

/// A source of models that a user set up.
#[derive(Debug)]
pub struct Profile {
    pub id: String,
    pub name: String,
    pub template_id: String,
    pub category: String,
    pub api_format: String,
    pub base_url: String,
    pub api_key: String,
    pub model: String,
    pub website_url: Option<String>,
    pub icon: Option<String>,
    pub icon_color: Option<String>,
    pub sort_index: Option<i64>,
    pub created_at: Option<i64>,
    pub notes: Option<String>,
}

/// A kind of source that a profile can be made from.
#[derive(Debug)]
pub struct Template {
    pub id: String,
    pub name: String,
    pub category: String,
    pub api_format: String,
    pub adapter: String,
    pub base_url: String,
    pub base_url_editable: bool,
    pub requires_model_override: bool,
    pub builtin_models: Vec<String>,
    pub website_url: String,
    pub icon: String,
    pub icon_color: String,
    pub thinking_policy: String,
}

/// The configuration.
#[derive(Debug)]
pub struct Config {
    pub schema_version: u32,
    pub profiles: Vec<Profile>,
    pub active_id: String,
    pub proxy_port: u16,
    pub sandbox_port: u16,
    pub secret: String,
    pub mode: String,
    pub pending_notice: Option<String>,
}

/// The contents of a profile.
pub struct ProfileView {
    pub id: Seq<char>,
    pub name: Seq<char>,
    pub template_id: Seq<char>,
    pub category: Seq<char>,
    pub api_format: Seq<char>,
    pub base_url: Seq<char>,
    pub api_key: Seq<char>,
    pub model: Seq<char>,
    pub website_url: Option<Seq<char>>,
    pub icon: Option<Seq<char>>,
    pub icon_color: Option<Seq<char>>,
    pub sort_index: Option<i64>,
    pub created_at: Option<i64>,
    pub notes: Option<Seq<char>>,
}

impl View for Profile {
    type V = ProfileView;

    open spec fn view(&self) -> ProfileView {
        ProfileView {
            id: self.id@,
            name: self.name@,
            template_id: self.template_id@,
            category: self.category@,
            api_format: self.api_format@,
            base_url: self.base_url@,
            api_key: self.api_key@,
            model: self.model@,
            website_url: chars::opt_text(self.website_url),
            icon: chars::opt_text(self.icon),
            icon_color: chars::opt_text(self.icon_color),
            sort_index: self.sort_index,
            created_at: self.created_at,
            notes: chars::opt_text(self.notes),
        }
    }
}

/// The contents of a list of profiles.
pub open spec fn profile_views(v: Seq<Profile>) -> Seq<ProfileView> {
    Seq::new(v.len(), |i: int| v[i]@)
}

/// The contents of a template.
pub struct TemplateView {
    pub id: Seq<char>,
    pub name: Seq<char>,
    pub category: Seq<char>,
    pub api_format: Seq<char>,
    pub adapter: Seq<char>,
    pub base_url: Seq<char>,
    pub base_url_editable: bool,
    pub requires_model_override: bool,
    pub builtin_models: Seq<Seq<char>>,
    pub website_url: Seq<char>,
    pub icon: Seq<char>,
    pub icon_color: Seq<char>,
    pub thinking_policy: Seq<char>,
}

impl View for Template {
    type V = TemplateView;

    open spec fn view(&self) -> TemplateView {
        TemplateView {
            id: self.id@,
            name: self.name@,
            category: self.category@,
            api_format: self.api_format@,
            adapter: self.adapter@,
            base_url: self.base_url@,
            base_url_editable: self.base_url_editable,
            requires_model_override: self.requires_model_override,
            builtin_models: chars::texts(self.builtin_models@),
            website_url: self.website_url@,
            icon: self.icon@,
            icon_color: self.icon_color@,
            thinking_policy: self.thinking_policy@,
        }
    }
}

/// The contents of a configuration.
pub struct ConfigView {
    pub schema_version: u32,
    pub profiles: Seq<ProfileView>,
    pub active_id: Seq<char>,
    pub proxy_port: u16,
    pub sandbox_port: u16,
    pub secret: Seq<char>,
    pub mode: Seq<char>,
    pub pending_notice: Option<Seq<char>>,
}

impl View for Config {
    type V = ConfigView;

    open spec fn view(&self) -> ConfigView {
        ConfigView {
            schema_version: self.schema_version,
            profiles: profile_views(self.profiles@),
            active_id: self.active_id@,
            proxy_port: self.proxy_port,
            sandbox_port: self.sandbox_port,
            secret: self.secret@,
            mode: self.mode@,
            pending_notice: chars::opt_text(self.pending_notice),
        }
    }
}

/// Where the profile with the given id first stands; the number of profiles, if
/// nowhere.
pub open spec fn place_of(v: Seq<ProfileView>, id: Seq<char>) -> int
    decreases v.len(),
{
    if v.len() == 0 || v[0].id == id {
        0
    } else {
        1 + place_of(v.drop_first(), id)
    }
}

/// The first profile with the given id.
pub open spec fn find(v: Seq<ProfileView>, id: Seq<char>) -> Option<ProfileView> {
    if place_of(v, id) < v.len() {
        Some(v[place_of(v, id)])
    } else {
        None
    }
}

/// The place of an id is where a profile with it first stands.
pub proof fn lemma_place_of(v: Seq<ProfileView>, id: Seq<char>)
    ensures
        0 <= place_of(v, id) <= v.len(),
        place_of(v, id) < v.len() ==> v[place_of(v, id)].id == id,
        forall|i: int| 0 <= i < place_of(v, id) ==> (#[trigger] v[i]).id != id,
    decreases v.len(),
{
    if v.len() > 0 && v[0].id != id {
        lemma_place_of(v.drop_first(), id);
        assert forall|i: int| 0 <= i < place_of(v, id) implies (#[trigger] v[i]).id != id by {
            if i > 0 {
                assert(v[i] == v.drop_first()[i - 1]);
            }
        }
    }
}

/// A place with the properties of `lemma_place_of` is the place.
pub proof fn lemma_place_of_is(v: Seq<ProfileView>, id: Seq<char>, k: int)
    requires
        0 <= k <= v.len(),
        k < v.len() ==> v[k].id == id,
        forall|i: int| 0 <= i < k ==> (#[trigger] v[i]).id != id,
    ensures
        place_of(v, id) == k,
{
    lemma_place_of(v, id);
    if place_of(v, id) < k {
        assert(v[place_of(v, id)].id == id);
    }
}

/// Copies of profiles.
fn copy_profiles(v: &Vec<Profile>) -> (r: Vec<Profile>)
    ensures
        profile_views(r@) == profile_views(v@),
{
    let mut out: Vec<Profile> = Vec::new();
    let mut i: usize = 0;
    while i < v.len()
        invariant
            i <= v@.len(),
            profile_views(out@) == profile_views(v@).take(i as int),
        decreases v@.len() - i,
    {
        let ghost before = profile_views(out@);
        let copy = v[i].clone();
        out.push(copy);
        assert(profile_views(out@) =~= before.push(v@[i as int]@));
        i = i + 1;
        assert(profile_views(out@) =~= profile_views(v@).take(i as int));
    }
    assert(profile_views(out@) =~= profile_views(v@));
    out
}

impl Clone for Profile {
    fn clone(&self) -> (r: Profile)
        ensures
            r@ == self@,
    {
        Profile {
            id: self.id.clone(),
            name: self.name.clone(),
            template_id: self.template_id.clone(),
            category: self.category.clone(),
            api_format: self.api_format.clone(),
            base_url: self.base_url.clone(),
            api_key: self.api_key.clone(),
            model: self.model.clone(),
            website_url: copy_opt(&self.website_url),
            icon: copy_opt(&self.icon),
            icon_color: copy_opt(&self.icon_color),
            sort_index: self.sort_index,
            created_at: self.created_at,
            notes: copy_opt(&self.notes),
        }
    }
}

impl Clone for Config {
    fn clone(&self) -> (r: Config)
        ensures
            r@ == self@,
    {
        Config {
            schema_version: self.schema_version,
            profiles: copy_profiles(&self.profiles),
            active_id: self.active_id.clone(),
            proxy_port: self.proxy_port,
            sandbox_port: self.sandbox_port,
            secret: self.secret.clone(),
            mode: self.mode.clone(),
            pending_notice: copy_opt(&self.pending_notice),
        }
    }
}

impl Default for Profile {
    fn default() -> (r: Profile)
        ensures
            r@ == (ProfileView {
                id: Seq::empty(),
                name: Seq::empty(),
                template_id: Seq::empty(),
                category: Seq::empty(),
                api_format: Seq::empty(),
                base_url: Seq::empty(),
                api_key: Seq::empty(),
                model: Seq::empty(),
                website_url: None,
                icon: None,
                icon_color: None,
                sort_index: None,
                created_at: None,
                notes: None,
            }),
    {
        let r = Profile {
            id: String::new(),
            name: String::new(),
            template_id: String::new(),
            category: String::new(),
            api_format: String::new(),
            base_url: String::new(),
            api_key: String::new(),
            model: String::new(),
            website_url: None,
            icon: None,
            icon_color: None,
            sort_index: None,
            created_at: None,
            notes: None,
        };
        assert(r@.id =~= Seq::empty());
        assert(r@.name =~= Seq::empty());
        assert(r@.template_id =~= Seq::empty());
        assert(r@.category =~= Seq::empty());
        assert(r@.api_format =~= Seq::empty());
        assert(r@.base_url =~= Seq::empty());
        assert(r@.api_key =~= Seq::empty());
        assert(r@.model =~= Seq::empty());
        r
    }
}

impl Config {
    /// Where the profile with the given id stands.
    pub fn position_of(&self, id: &str) -> (r: usize)
        ensures
            r == place_of(self@.profiles, id@),
            r <= self.profiles@.len(),
    {
        let ghost v = profile_views(self.profiles@);
        let n = self.profiles.len();
        let mut i: usize = 0;
        while i < n && !same(self.profiles[i].id.as_str(), id)
            invariant
                i <= n,
                n == self.profiles@.len(),
                v == profile_views(self.profiles@),
                forall|j: int| 0 <= j < i ==> (#[trigger] v[j]).id != id@,
            decreases n - i,
        {
            assert(v[i as int].id != id@);
            i = i + 1;
        }
        proof {
            if i < n {
                assert(v[i as int].id == id@);
            }
            lemma_place_of_is(v, id@, i as int);
        }
        i
    }

    /// The first profile with the given id.
    pub fn profile_by_id(&self, id: &str) -> (r: Option<&Profile>)
        ensures
            match r {
                Some(p) => find(self@.profiles, id@) == Some(p@),
                None => find(self@.profiles, id@) is None,
            },
    {
        let i = self.position_of(id);
        if i < self.profiles.len() {
            Some(&self.profiles[i])
        } else {
            None
        }
    }

    /// The profile in use.
    pub fn active_profile(&self) -> (r: Option<&Profile>)
        ensures
            match r {
                Some(p) => find(self@.profiles, self@.active_id) == Some(p@),
                None => find(self@.profiles, self@.active_id) is None,
            },
    {
        self.profile_by_id(self.active_id.as_str())
    }
}

/// A profile is found under its id: it is one of the list, with that id, and it is found if
/// any has it. Where no two have the same id, each is found under its own.
pub proof fn lemma_find(v: Seq<ProfileView>, id: Seq<char>, k: int)
    requires
        0 <= k < v.len(),
    ensures
        find(v, id) matches Some(p) ==> p.id == id && v.contains(p),
        v[k].id == id ==> find(v, id) is Some,
        (forall|i: int| 0 <= i < v.len() ==> (#[trigger] v[i]).id != id) ==> find(v, id) is None,
        (forall|i: int| 0 <= i < v.len() && i != k ==> (#[trigger] v[i]).id != v[k].id) ==> find(
            v,
            v[k].id,
        ) == Some(v[k]),
{
    lemma_place_of(v, id);
    lemma_place_of(v, v[k].id);
    let i = place_of(v, id);
    if i < v.len() {
        assert(v[i].id == id);
    }
    let j = place_of(v, v[k].id);
    if j < v.len() {
        assert(v[j].id == v[k].id);
    }
}

} // verus!
