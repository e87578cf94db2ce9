//! A pipeline that extends a template.

use crate::decode::{
    items_field, key_texts, lookup, nested_field, opened, opt_nested_field, opt_text,
    opt_text_field, opt_value_field, opt_view, present, result_view, text_field, texts_field,
    Decode,
};
use crate::encode::{
    encoded_items, encoded_opt, encoded_opt_text, encoded_opt_value, encoded_texts, field,
    lemma_entries_accepted, lemma_entries_refused, lemma_items_field_round_trip, lemma_lookup_at,
    lemma_texts_round_trip, put_items, put_opt, put_opt_text, put_opt_value, put_text, put_texts,
    Encode,
};
use crate::error::{no_variant_of_two, DecodeError, DecodeErrorView, Shape};
use crate::fields::{
    get_items, get_nested, get_opt_nested, get_opt_text, get_opt_value, get_text, get_texts,
    open_shape,
};
use crate::schema::v1::extends::{Extends, ExtendsView};
use crate::schema::v1::trigger::{ResourceTrigger, ResourceTriggerView, Trigger, TriggerView};
use crate::value::{lemma_mapping_view, views_of, Value, ValueView};
use vstd::prelude::*;

verus! {

/// A pipeline that extends a template.
#[derive(Clone, Debug, PartialEq, Default)]
pub struct Pipeline {
    /// Extends a template
    pub extends: Extends,
    /// Pipeline run number
    pub name: Option<String>,
    /// The runtime parameters for this pipeline
    pub parameters: Vec<PipelineParameter>,
    /// Pool where jobs in this pipeline will run unless otherwise specified
    pub pool: Option<String>,
    /// Pull request triggers
    pub pr: Option<String>,
    /// Containers and repositories used in the build
    pub resources: Option<PipelineResources>,
    /// Continuous integration triggers
    pub trigger: Option<Trigger>,
    /// Variables for this pipeline
    pub variables: Vec<PipelineVariable>,
}

pub ghost struct PipelineView {
    pub extends: ExtendsView,
    pub name: Option<Seq<char>>,
    pub parameters: Seq<PipelineParameterView>,
    pub pool: Option<Seq<char>>,
    pub pr: Option<Seq<char>>,
    pub resources: Option<PipelineResourcesView>,
    pub trigger: Option<TriggerView>,
    pub variables: Seq<PipelineVariableView>,
}

impl View for Pipeline {
    type V = PipelineView;

    open spec fn view(&self) -> PipelineView {
        PipelineView {
            extends: self.extends@,
            name: opt_text(self.name),
            parameters: views_of(self.parameters@),
            pool: opt_text(self.pool),
            pr: opt_text(self.pr),
            resources: opt_view(self.resources),
            trigger: opt_view(self.trigger),
            variables: views_of(self.variables@),
        }
    }
}

/// The builds, repositories, pipelines and other resources used by the
/// pipeline.
#[derive(Clone, Debug, PartialEq, Default)]
pub struct PipelineResources {
    /// List of container images
    pub containers: Vec<ContainerResource>,
    /// List of pipeline resources
    pub pipelines: Vec<PipelineResource>,
    /// List of repository resources
    pub repositories: Vec<RepositoryResource>,
}

pub ghost struct PipelineResourcesView {
    pub containers: Seq<ContainerResourceView>,
    pub pipelines: Seq<PipelineResourceView>,
    pub repositories: Seq<RepositoryResourceView>,
}

impl View for PipelineResources {
    type V = PipelineResourcesView;

    open spec fn view(&self) -> PipelineResourcesView {
        PipelineResourcesView {
            containers: views_of(self.containers@),
            pipelines: views_of(self.pipelines@),
            repositories: views_of(self.repositories@),
        }
    }
}

/// A container resource references a container image.
#[derive(Clone, Debug, PartialEq, Default)]
pub struct ContainerResource {
    /// ID for the container
    pub name: String,
    /// ID of the service endpoint connecting to a private container registry
    pub endpoint: Option<String>,
    /// Container image tag
    pub image: String,
}

pub ghost struct ContainerResourceView {
    pub name: Seq<char>,
    pub endpoint: Option<Seq<char>>,
    pub image: Seq<char>,
}

impl View for ContainerResource {
    type V = ContainerResourceView;

    open spec fn view(&self) -> ContainerResourceView {
        ContainerResourceView {
            name: self.name@,
            endpoint: opt_text(self.endpoint),
            image: self.image@,
        }
    }
}

/// A pipeline whose artifacts this pipeline consumes, or whose completion
/// triggers it.
#[derive(Clone, Debug, PartialEq, Default)]
pub struct PipelineResource {
    /// ID of the pipeline resource
    pub pipeline: String,
    /// Name of the pipeline that produces the artifact
    pub source: String,
    /// Specify `none` to disable, `true` for all branches, or use the full
    /// syntax
    pub trigger: Option<ResourceTrigger>,
}

pub ghost struct PipelineResourceView {
    pub pipeline: Seq<char>,
    pub source: Seq<char>,
    pub trigger: Option<ResourceTriggerView>,
}

impl View for PipelineResource {
    type V = PipelineResourceView;

    open spec fn view(&self) -> PipelineResourceView {
        PipelineResourceView {
            pipeline: self.pipeline@,
            source: self.source@,
            trigger: opt_view(self.trigger),
        }
    }
}

/// An additional repository that the pipeline refers to.
#[derive(Clone, Debug, PartialEq, Default)]
pub struct RepositoryResource {
    /// Alias for the specified repository
    pub alias: String,
    /// Type of repository: git, github, githubenterprise, and bitbucket
    pub repository_type: String,
    /// Repository name. Its format depends on the type of repository
    pub name: String,
    /// The ref to check out, and the branch checked out whenever the resource
    /// trigger fires
    pub repository_ref: String,
}

pub ghost struct RepositoryResourceView {
    pub alias: Seq<char>,
    pub repository_type: Seq<char>,
    pub name: Seq<char>,
    pub repository_ref: Seq<char>,
}

impl View for RepositoryResource {
    type V = RepositoryResourceView;

    open spec fn view(&self) -> RepositoryResourceView {
        RepositoryResourceView {
            alias: self.alias@,
            repository_type: self.repository_type@,
            name: self.name@,
            repository_ref: self.repository_ref@,
        }
    }
}

/// A variable of a pipeline, tried as a reference to a variable group, then as
/// a name and a value.
#[derive(Clone, Debug, PartialEq)]
pub enum PipelineVariable {
    /// Reference variables from a variable group
    Group(VariableGroup),
    /// Define variables using name and full syntax
    Variable(ValueVariable),
}

pub ghost enum PipelineVariableView {
    Group(VariableGroupView),
    Variable(ValueVariableView),
}

impl View for PipelineVariable {
    type V = PipelineVariableView;

    open spec fn view(&self) -> PipelineVariableView {
        match self {
            PipelineVariable::Group(x) => PipelineVariableView::Group(x@),
            PipelineVariable::Variable(x) => PipelineVariableView::Variable(x@),
        }
    }
}

/// A reference to the variables of a variable group.
#[derive(Clone, Debug, PartialEq, Default)]
pub struct VariableGroup {
    /// Variable group name
    pub group: String,
}

pub ghost struct VariableGroupView {
    pub group: Seq<char>,
}

impl View for VariableGroup {
    type V = VariableGroupView;

    open spec fn view(&self) -> VariableGroupView {
        VariableGroupView {
            group: self.group@,
        }
    }
}

/// A variable given by its name and its value.
#[derive(Clone, Debug, PartialEq, Default)]
pub struct ValueVariable {
    /// Variable name
    pub name: String,
    /// Variable value
    pub value: String,
}

pub ghost struct ValueVariableView {
    pub name: Seq<char>,
    pub value: Seq<char>,
}

impl View for ValueVariable {
    type V = ValueVariableView;

    open spec fn view(&self) -> ValueVariableView {
        ValueVariableView {
            name: self.name@,
            value: self.value@,
        }
    }
}

/// A value passed to a pipeline.
#[derive(Clone, Debug, PartialEq)]
pub struct PipelineParameter {
    /// Parameter name
    pub name: String,
    /// Human-readable name for the parameter
    pub display_name: Option<String>,
    /// Parameter type
    pub parameter_type: String,
    /// Default value; where there is none, the user has to give a value at run
    /// time
    pub default: Option<Value>,
    /// Allowed list of values (for some data types)
    pub values: Vec<String>,
}

pub ghost struct PipelineParameterView {
    pub name: Seq<char>,
    pub display_name: Option<Seq<char>>,
    pub parameter_type: Seq<char>,
    pub default: Option<ValueView>,
    pub values: Seq<Seq<char>>,
}

impl View for PipelineParameter {
    type V = PipelineParameterView;

    open spec fn view(&self) -> PipelineParameterView {
        PipelineParameterView {
            name: self.name@,
            display_name: opt_text(self.display_name),
            parameter_type: self.parameter_type@,
            default: opt_view(self.default),
            values: views_of(self.values@),
        }
    }
}

impl Pipeline {
    /// The keys of a pipeline.
    pub open spec fn keys() -> Seq<Seq<char>> {
        seq![
            "extends"@,
            "name"@,
            "parameters"@,
            "pool"@,
            "pr"@,
            "resources"@,
            "trigger"@,
            "variables"@,
        ]
    }

    /// The entries of the document form of a pipeline.
    pub open spec fn entries(x: PipelineView) -> Seq<(Seq<char>, ValueView)> {
        seq![
            ("extends"@, Extends::encoded(x.extends)),
            ("name"@, encoded_opt_text(x.name)),
            ("parameters"@, encoded_items::<PipelineParameter>(x.parameters)),
            ("pool"@, encoded_opt_text(x.pool)),
            ("pr"@, encoded_opt_text(x.pr)),
            ("resources"@, encoded_opt::<PipelineResources>(x.resources)),
            ("trigger"@, encoded_opt::<Trigger>(x.trigger)),
            ("variables"@, encoded_items::<PipelineVariable>(x.variables)),
        ]
    }

    /// The keys of a pipeline differ from one another.
    pub proof fn lemma_keys_distinct()
        ensures
            forall|i: int, j: int|
                0 <= i < j < Self::keys().len() ==> Self::keys()[i] != Self::keys()[j],
    {
        reveal_strlit("extends");
        assert("extends"@.len() == 7);
        reveal_strlit("name");
        assert("name"@.len() == 4);
        reveal_strlit("parameters");
        assert("parameters"@.len() == 10);
        reveal_strlit("pool");
        assert("pool"@.len() == 4);
        reveal_strlit("pr");
        assert("pr"@.len() == 2);
        reveal_strlit("resources");
        assert("resources"@.len() == 9);
        reveal_strlit("trigger");
        assert("trigger"@.len() == 7);
        reveal_strlit("variables");
        assert("variables"@.len() == 9);
        assert("extends"@[0] != "trigger"@[0]);
        assert("name"@[0] != "pool"@[0]);
        assert("resources"@[0] != "variables"@[0]);
    }

    /// A mapping with a key outside the keys of a pipeline is refused for a key
    /// outside them, whatever else it holds.
    pub proof fn law_undeclared_key_is_refused(m: Seq<(Seq<char>, ValueView)>, i: int)
        requires
            0 <= i < m.len(),
            !Self::keys().contains(m[i].0),
        ensures
            Self::decoded(ValueView::Mapping(m)) matches Err(
                DecodeErrorView::UnrecognizedField { path, key },
            ) && path.len() == 0 && !Self::keys().contains(key),
    {
        lemma_entries_refused(m, Self::keys(), i);
    }
}

impl Decode for Pipeline {
    /// Of the fields of a pipeline only `extends` is required.
    open spec fn decoded(v: ValueView) -> Result<PipelineView, DecodeErrorView> {
        match opened(v, Self::keys()) {
            Err(e) => Err(e),
            Ok(m) => {
                let extends = nested_field::<Extends>(m, "extends"@);
                let name = opt_text_field(m, "name"@);
                let parameters = items_field::<PipelineParameter>(m, "parameters"@, false);
                let pool = opt_text_field(m, "pool"@);
                let pr = opt_text_field(m, "pr"@);
                let resources = opt_nested_field::<PipelineResources>(m, "resources"@);
                let trigger = opt_nested_field::<Trigger>(m, "trigger"@);
                let variables = items_field::<PipelineVariable>(m, "variables"@, false);
                if extends is Err {
                    Err(extends->Err_0)
                } else if name is Err {
                    Err(name->Err_0)
                } else if parameters is Err {
                    Err(parameters->Err_0)
                } else if pool is Err {
                    Err(pool->Err_0)
                } else if pr is Err {
                    Err(pr->Err_0)
                } else if resources is Err {
                    Err(resources->Err_0)
                } else if trigger is Err {
                    Err(trigger->Err_0)
                } else if variables is Err {
                    Err(variables->Err_0)
                } else {
                    Ok(
                        PipelineView {
                            extends: extends->Ok_0,
                            name: name->Ok_0,
                            parameters: parameters->Ok_0,
                            pool: pool->Ok_0,
                            pr: pr->Ok_0,
                            resources: resources->Ok_0,
                            trigger: trigger->Ok_0,
                            variables: variables->Ok_0,
                        },
                    )
                }
            },
        }
    }

    fn decode(v: &Value) -> (r: Result<Pipeline, DecodeError>)
        ensures
            result_view(r) == Self::decoded(v@),
    {
        let keys = ["extends", "name", "parameters", "pool", "pr", "resources", "trigger", "variables"];
        assert(key_texts(keys@) =~= Self::keys());
        let m = open_shape(v, &keys)?;
        let extends = get_nested::<Extends>(m, "extends")?;
        let name = get_opt_text(m, "name")?;
        let parameters = get_items::<PipelineParameter>(m, "parameters", false)?;
        let pool = get_opt_text(m, "pool")?;
        let pr = get_opt_text(m, "pr")?;
        let resources = get_opt_nested::<PipelineResources>(m, "resources")?;
        let trigger = get_opt_nested::<Trigger>(m, "trigger")?;
        let variables = get_items::<PipelineVariable>(m, "variables", false)?;
        Ok(Pipeline { extends, name, parameters, pool, pr, resources, trigger, variables })
    }
}

impl Encode for Pipeline {
    open spec fn encoded(x: PipelineView) -> ValueView {
        ValueView::Mapping(Self::entries(x))
    }

    fn encode(&self) -> (v: Value)
        ensures
            v@ == Self::encoded(self@),
    {
        let mut entries: Vec<(String, Value)> = Vec::new();
        entries.push(field("extends", self.extends.encode()));
        entries.push(field("name", put_opt_text(&self.name)));
        entries.push(field("parameters", put_items::<PipelineParameter>(&self.parameters)));
        entries.push(field("pool", put_opt_text(&self.pool)));
        entries.push(field("pr", put_opt_text(&self.pr)));
        entries.push(field("resources", put_opt::<PipelineResources>(&self.resources)));
        entries.push(field("trigger", put_opt::<Trigger>(&self.trigger)));
        entries.push(field("variables", put_items::<PipelineVariable>(&self.variables)));
        proof {
            lemma_mapping_view(entries);
            assert(views_of(entries@) =~= Self::entries(self@));
        }
        Value::Mapping(entries)
    }

    proof fn lemma_encoded_is_not_null(x: PipelineView)
        ensures
            !(Self::encoded(x) is Null),
    {
    }

    /// Of a node that is accepted: decoding it, encoding what was read and
    /// decoding that gives what the first decoding gave.
    proof fn round_trip(v: ValueView)
        ensures
            Self::decoded(Self::encoded(Self::decoded(v)->Ok_0)) == Self::decoded(v),
    {
        let m = opened(v, Self::keys())->Ok_0;
        let x = Self::decoded(v)->Ok_0;
        let e = Self::entries(x);
        Self::lemma_keys_distinct();
        assert(e.len() == Self::keys().len());
        assert forall|i: int| 0 <= i < e.len() implies (#[trigger] e[i]).0 == Self::keys()[i] by {}
        lemma_entries_accepted(e, Self::keys());
        lemma_lookup_at(e, 0);
        lemma_lookup_at(e, 1);
        lemma_lookup_at(e, 2);
        lemma_lookup_at(e, 3);
        lemma_lookup_at(e, 4);
        lemma_lookup_at(e, 5);
        lemma_lookup_at(e, 6);
        lemma_lookup_at(e, 7);
        Extends::round_trip(lookup(m, "extends"@)->Some_0);
        lemma_items_field_round_trip::<PipelineParameter>(m, "parameters"@, false);
        if present(m, "resources"@) is Some {
            PipelineResources::round_trip(present(m, "resources"@)->Some_0);
            PipelineResources::lemma_encoded_is_not_null(x.resources->Some_0);
        }
        if present(m, "trigger"@) is Some {
            Trigger::round_trip(present(m, "trigger"@)->Some_0);
            Trigger::lemma_encoded_is_not_null(x.trigger->Some_0);
        }
        lemma_items_field_round_trip::<PipelineVariable>(m, "variables"@, false);
    }
}

impl PipelineResources {
    /// The keys of the resources of a pipeline.
    pub open spec fn keys() -> Seq<Seq<char>> {
        seq![
            "containers"@,
            "pipelines"@,
            "repositories"@,
        ]
    }

    /// The entries of the document form of the resources of a pipeline.
    pub open spec fn entries(x: PipelineResourcesView) -> Seq<(Seq<char>, ValueView)> {
        seq![
            ("containers"@, encoded_items::<ContainerResource>(x.containers)),
            ("pipelines"@, encoded_items::<PipelineResource>(x.pipelines)),
            ("repositories"@, encoded_items::<RepositoryResource>(x.repositories)),
        ]
    }

    /// The keys of the resources of a pipeline differ from one another.
    pub proof fn lemma_keys_distinct()
        ensures
            forall|i: int, j: int|
                0 <= i < j < Self::keys().len() ==> Self::keys()[i] != Self::keys()[j],
    {
        reveal_strlit("containers");
        assert("containers"@.len() == 10);
        reveal_strlit("pipelines");
        assert("pipelines"@.len() == 9);
        reveal_strlit("repositories");
        assert("repositories"@.len() == 12);
    }

    /// A mapping with a key outside the keys of the resources of a pipeline is
    /// refused for a key outside them, whatever else it holds.
    pub proof fn law_undeclared_key_is_refused(m: Seq<(Seq<char>, ValueView)>, i: int)
        requires
            0 <= i < m.len(),
            !Self::keys().contains(m[i].0),
        ensures
            Self::decoded(ValueView::Mapping(m)) matches Err(
                DecodeErrorView::UnrecognizedField { path, key },
            ) && path.len() == 0 && !Self::keys().contains(key),
    {
        lemma_entries_refused(m, Self::keys(), i);
    }
}

impl Decode for PipelineResources {
    open spec fn decoded(v: ValueView) -> Result<PipelineResourcesView, DecodeErrorView> {
        match opened(v, Self::keys()) {
            Err(e) => Err(e),
            Ok(m) => {
                let containers = items_field::<ContainerResource>(m, "containers"@, false);
                let pipelines = items_field::<PipelineResource>(m, "pipelines"@, false);
                let repositories = items_field::<RepositoryResource>(m, "repositories"@, false);
                if containers is Err {
                    Err(containers->Err_0)
                } else if pipelines is Err {
                    Err(pipelines->Err_0)
                } else if repositories is Err {
                    Err(repositories->Err_0)
                } else {
                    Ok(
                        PipelineResourcesView {
                            containers: containers->Ok_0,
                            pipelines: pipelines->Ok_0,
                            repositories: repositories->Ok_0,
                        },
                    )
                }
            },
        }
    }

    fn decode(v: &Value) -> (r: Result<PipelineResources, DecodeError>)
        ensures
            result_view(r) == Self::decoded(v@),
    {
        let keys = ["containers", "pipelines", "repositories"];
        assert(key_texts(keys@) =~= Self::keys());
        let m = open_shape(v, &keys)?;
        let containers = get_items::<ContainerResource>(m, "containers", false)?;
        let pipelines = get_items::<PipelineResource>(m, "pipelines", false)?;
        let repositories = get_items::<RepositoryResource>(m, "repositories", false)?;
        Ok(PipelineResources { containers, pipelines, repositories })
    }
}

impl Encode for PipelineResources {
    open spec fn encoded(x: PipelineResourcesView) -> ValueView {
        ValueView::Mapping(Self::entries(x))
    }

    fn encode(&self) -> (v: Value)
        ensures
            v@ == Self::encoded(self@),
    {
        let mut entries: Vec<(String, Value)> = Vec::new();
        entries.push(field("containers", put_items::<ContainerResource>(&self.containers)));
        entries.push(field("pipelines", put_items::<PipelineResource>(&self.pipelines)));
        entries.push(field("repositories", put_items::<RepositoryResource>(&self.repositories)));
        proof {
            lemma_mapping_view(entries);
            assert(views_of(entries@) =~= Self::entries(self@));
        }
        Value::Mapping(entries)
    }

    proof fn lemma_encoded_is_not_null(x: PipelineResourcesView)
        ensures
            !(Self::encoded(x) is Null),
    {
    }

    /// Of a node that is accepted: decoding it, encoding what was read and
    /// decoding that gives what the first decoding gave.
    proof fn round_trip(v: ValueView)
        ensures
            Self::decoded(Self::encoded(Self::decoded(v)->Ok_0)) == Self::decoded(v),
    {
        let m = opened(v, Self::keys())->Ok_0;
        let x = Self::decoded(v)->Ok_0;
        let e = Self::entries(x);
        Self::lemma_keys_distinct();
        assert(e.len() == Self::keys().len());
        assert forall|i: int| 0 <= i < e.len() implies (#[trigger] e[i]).0 == Self::keys()[i] by {}
        lemma_entries_accepted(e, Self::keys());
        lemma_lookup_at(e, 0);
        lemma_lookup_at(e, 1);
        lemma_lookup_at(e, 2);
        lemma_items_field_round_trip::<ContainerResource>(m, "containers"@, false);
        lemma_items_field_round_trip::<PipelineResource>(m, "pipelines"@, false);
        lemma_items_field_round_trip::<RepositoryResource>(m, "repositories"@, false);
    }
}

impl ContainerResource {
    /// The keys of a container resource.
    pub open spec fn keys() -> Seq<Seq<char>> {
        seq![
            "container"@,
            "endpoint"@,
            "image"@,
        ]
    }

    /// The entries of the document form of a container resource.
    pub open spec fn entries(x: ContainerResourceView) -> Seq<(Seq<char>, ValueView)> {
        seq![
            ("container"@, ValueView::Text(x.name)),
            ("endpoint"@, encoded_opt_text(x.endpoint)),
            ("image"@, ValueView::Text(x.image)),
        ]
    }

    /// The keys of a container resource differ from one another.
    pub proof fn lemma_keys_distinct()
        ensures
            forall|i: int, j: int|
                0 <= i < j < Self::keys().len() ==> Self::keys()[i] != Self::keys()[j],
    {
        reveal_strlit("container");
        assert("container"@.len() == 9);
        reveal_strlit("endpoint");
        assert("endpoint"@.len() == 8);
        reveal_strlit("image");
        assert("image"@.len() == 5);
    }

    /// A mapping with a key outside the keys of a container resource is refused
    /// for a key outside them, whatever else it holds.
    pub proof fn law_undeclared_key_is_refused(m: Seq<(Seq<char>, ValueView)>, i: int)
        requires
            0 <= i < m.len(),
            !Self::keys().contains(m[i].0),
        ensures
            Self::decoded(ValueView::Mapping(m)) matches Err(
                DecodeErrorView::UnrecognizedField { path, key },
            ) && path.len() == 0 && !Self::keys().contains(key),
    {
        lemma_entries_refused(m, Self::keys(), i);
    }
}

impl Decode for ContainerResource {
    open spec fn decoded(v: ValueView) -> Result<ContainerResourceView, DecodeErrorView> {
        match opened(v, Self::keys()) {
            Err(e) => Err(e),
            Ok(m) => {
                let name = text_field(m, "container"@);
                let endpoint = opt_text_field(m, "endpoint"@);
                let image = text_field(m, "image"@);
                if name is Err {
                    Err(name->Err_0)
                } else if endpoint is Err {
                    Err(endpoint->Err_0)
                } else if image is Err {
                    Err(image->Err_0)
                } else {
                    Ok(
                        ContainerResourceView {
                            name: name->Ok_0,
                            endpoint: endpoint->Ok_0,
                            image: image->Ok_0,
                        },
                    )
                }
            },
        }
    }

    fn decode(v: &Value) -> (r: Result<ContainerResource, DecodeError>)
        ensures
            result_view(r) == Self::decoded(v@),
    {
        let keys = ["container", "endpoint", "image"];
        assert(key_texts(keys@) =~= Self::keys());
        let m = open_shape(v, &keys)?;
        let name = get_text(m, "container")?;
        let endpoint = get_opt_text(m, "endpoint")?;
        let image = get_text(m, "image")?;
        Ok(ContainerResource { name, endpoint, image })
    }
}

impl Encode for ContainerResource {
    open spec fn encoded(x: ContainerResourceView) -> ValueView {
        ValueView::Mapping(Self::entries(x))
    }

    fn encode(&self) -> (v: Value)
        ensures
            v@ == Self::encoded(self@),
    {
        let mut entries: Vec<(String, Value)> = Vec::new();
        entries.push(field("container", put_text(&self.name)));
        entries.push(field("endpoint", put_opt_text(&self.endpoint)));
        entries.push(field("image", put_text(&self.image)));
        proof {
            lemma_mapping_view(entries);
            assert(views_of(entries@) =~= Self::entries(self@));
        }
        Value::Mapping(entries)
    }

    proof fn lemma_encoded_is_not_null(x: ContainerResourceView)
        ensures
            !(Self::encoded(x) is Null),
    {
    }

    /// Of a node that is accepted: decoding it, encoding what was read and
    /// decoding that gives what the first decoding gave.
    proof fn round_trip(v: ValueView)
        ensures
            Self::decoded(Self::encoded(Self::decoded(v)->Ok_0)) == Self::decoded(v),
    {
        let m = opened(v, Self::keys())->Ok_0;
        let x = Self::decoded(v)->Ok_0;
        let e = Self::entries(x);
        Self::lemma_keys_distinct();
        assert(e.len() == Self::keys().len());
        assert forall|i: int| 0 <= i < e.len() implies (#[trigger] e[i]).0 == Self::keys()[i] by {}
        lemma_entries_accepted(e, Self::keys());
        lemma_lookup_at(e, 0);
        lemma_lookup_at(e, 1);
        lemma_lookup_at(e, 2);
    }
}

impl PipelineResource {
    /// The keys of a pipeline resource.
    pub open spec fn keys() -> Seq<Seq<char>> {
        seq![
            "pipeline"@,
            "source"@,
            "trigger"@,
        ]
    }

    /// The entries of the document form of a pipeline resource.
    pub open spec fn entries(x: PipelineResourceView) -> Seq<(Seq<char>, ValueView)> {
        seq![
            ("pipeline"@, ValueView::Text(x.pipeline)),
            ("source"@, ValueView::Text(x.source)),
            ("trigger"@, encoded_opt::<ResourceTrigger>(x.trigger)),
        ]
    }

    /// The keys of a pipeline resource differ from one another.
    pub proof fn lemma_keys_distinct()
        ensures
            forall|i: int, j: int|
                0 <= i < j < Self::keys().len() ==> Self::keys()[i] != Self::keys()[j],
    {
        reveal_strlit("pipeline");
        assert("pipeline"@.len() == 8);
        reveal_strlit("source");
        assert("source"@.len() == 6);
        reveal_strlit("trigger");
        assert("trigger"@.len() == 7);
    }

    /// A mapping with a key outside the keys of a pipeline resource is refused
    /// for a key outside them, whatever else it holds.
    pub proof fn law_undeclared_key_is_refused(m: Seq<(Seq<char>, ValueView)>, i: int)
        requires
            0 <= i < m.len(),
            !Self::keys().contains(m[i].0),
        ensures
            Self::decoded(ValueView::Mapping(m)) matches Err(
                DecodeErrorView::UnrecognizedField { path, key },
            ) && path.len() == 0 && !Self::keys().contains(key),
    {
        lemma_entries_refused(m, Self::keys(), i);
    }
}

impl Decode for PipelineResource {
    open spec fn decoded(v: ValueView) -> Result<PipelineResourceView, DecodeErrorView> {
        match opened(v, Self::keys()) {
            Err(e) => Err(e),
            Ok(m) => {
                let pipeline = text_field(m, "pipeline"@);
                let source = text_field(m, "source"@);
                let trigger = opt_nested_field::<ResourceTrigger>(m, "trigger"@);
                if pipeline is Err {
                    Err(pipeline->Err_0)
                } else if source is Err {
                    Err(source->Err_0)
                } else if trigger is Err {
                    Err(trigger->Err_0)
                } else {
                    Ok(
                        PipelineResourceView {
                            pipeline: pipeline->Ok_0,
                            source: source->Ok_0,
                            trigger: trigger->Ok_0,
                        },
                    )
                }
            },
        }
    }

    fn decode(v: &Value) -> (r: Result<PipelineResource, DecodeError>)
        ensures
            result_view(r) == Self::decoded(v@),
    {
        let keys = ["pipeline", "source", "trigger"];
        assert(key_texts(keys@) =~= Self::keys());
        let m = open_shape(v, &keys)?;
        let pipeline = get_text(m, "pipeline")?;
        let source = get_text(m, "source")?;
        let trigger = get_opt_nested::<ResourceTrigger>(m, "trigger")?;
        Ok(PipelineResource { pipeline, source, trigger })
    }
}

impl Encode for PipelineResource {
    open spec fn encoded(x: PipelineResourceView) -> ValueView {
        ValueView::Mapping(Self::entries(x))
    }

    fn encode(&self) -> (v: Value)
        ensures
            v@ == Self::encoded(self@),
    {
        let mut entries: Vec<(String, Value)> = Vec::new();
        entries.push(field("pipeline", put_text(&self.pipeline)));
        entries.push(field("source", put_text(&self.source)));
        entries.push(field("trigger", put_opt::<ResourceTrigger>(&self.trigger)));
        proof {
            lemma_mapping_view(entries);
            assert(views_of(entries@) =~= Self::entries(self@));
        }
        Value::Mapping(entries)
    }

    proof fn lemma_encoded_is_not_null(x: PipelineResourceView)
        ensures
            !(Self::encoded(x) is Null),
    {
    }

    /// Of a node that is accepted: decoding it, encoding what was read and
    /// decoding that gives what the first decoding gave.
    proof fn round_trip(v: ValueView)
        ensures
            Self::decoded(Self::encoded(Self::decoded(v)->Ok_0)) == Self::decoded(v),
    {
        let m = opened(v, Self::keys())->Ok_0;
        let x = Self::decoded(v)->Ok_0;
        let e = Self::entries(x);
        Self::lemma_keys_distinct();
        assert(e.len() == Self::keys().len());
        assert forall|i: int| 0 <= i < e.len() implies (#[trigger] e[i]).0 == Self::keys()[i] by {}
        lemma_entries_accepted(e, Self::keys());
        lemma_lookup_at(e, 0);
        lemma_lookup_at(e, 1);
        lemma_lookup_at(e, 2);
        if present(m, "trigger"@) is Some {
            ResourceTrigger::round_trip(present(m, "trigger"@)->Some_0);
            ResourceTrigger::lemma_encoded_is_not_null(x.trigger->Some_0);
        }
    }
}

impl RepositoryResource {
    /// The keys of a repository resource.
    pub open spec fn keys() -> Seq<Seq<char>> {
        seq![
            "repository"@,
            "type"@,
            "name"@,
            "ref"@,
        ]
    }

    /// The entries of the document form of a repository resource.
    pub open spec fn entries(x: RepositoryResourceView) -> Seq<(Seq<char>, ValueView)> {
        seq![
            ("repository"@, ValueView::Text(x.alias)),
            ("type"@, ValueView::Text(x.repository_type)),
            ("name"@, ValueView::Text(x.name)),
            ("ref"@, ValueView::Text(x.repository_ref)),
        ]
    }

    /// The keys of a repository resource differ from one another.
    pub proof fn lemma_keys_distinct()
        ensures
            forall|i: int, j: int|
                0 <= i < j < Self::keys().len() ==> Self::keys()[i] != Self::keys()[j],
    {
        reveal_strlit("repository");
        assert("repository"@.len() == 10);
        reveal_strlit("type");
        assert("type"@.len() == 4);
        reveal_strlit("name");
        assert("name"@.len() == 4);
        reveal_strlit("ref");
        assert("ref"@.len() == 3);
        assert("type"@[0] != "name"@[0]);
    }

    /// A mapping with a key outside the keys of a repository resource is
    /// refused for a key outside them, whatever else it holds.
    pub proof fn law_undeclared_key_is_refused(m: Seq<(Seq<char>, ValueView)>, i: int)
        requires
            0 <= i < m.len(),
            !Self::keys().contains(m[i].0),
        ensures
            Self::decoded(ValueView::Mapping(m)) matches Err(
                DecodeErrorView::UnrecognizedField { path, key },
            ) && path.len() == 0 && !Self::keys().contains(key),
    {
        lemma_entries_refused(m, Self::keys(), i);
    }
}

impl Decode for RepositoryResource {
    open spec fn decoded(v: ValueView) -> Result<RepositoryResourceView, DecodeErrorView> {
        match opened(v, Self::keys()) {
            Err(e) => Err(e),
            Ok(m) => {
                let alias = text_field(m, "repository"@);
                let repository_type = text_field(m, "type"@);
                let name = text_field(m, "name"@);
                let repository_ref = text_field(m, "ref"@);
                if alias is Err {
                    Err(alias->Err_0)
                } else if repository_type is Err {
                    Err(repository_type->Err_0)
                } else if name is Err {
                    Err(name->Err_0)
                } else if repository_ref is Err {
                    Err(repository_ref->Err_0)
                } else {
                    Ok(
                        RepositoryResourceView {
                            alias: alias->Ok_0,
                            repository_type: repository_type->Ok_0,
                            name: name->Ok_0,
                            repository_ref: repository_ref->Ok_0,
                        },
                    )
                }
            },
        }
    }

    fn decode(v: &Value) -> (r: Result<RepositoryResource, DecodeError>)
        ensures
            result_view(r) == Self::decoded(v@),
    {
        let keys = ["repository", "type", "name", "ref"];
        assert(key_texts(keys@) =~= Self::keys());
        let m = open_shape(v, &keys)?;
        let alias = get_text(m, "repository")?;
        let repository_type = get_text(m, "type")?;
        let name = get_text(m, "name")?;
        let repository_ref = get_text(m, "ref")?;
        Ok(RepositoryResource { alias, repository_type, name, repository_ref })
    }
}

impl Encode for RepositoryResource {
    open spec fn encoded(x: RepositoryResourceView) -> ValueView {
        ValueView::Mapping(Self::entries(x))
    }

    fn encode(&self) -> (v: Value)
        ensures
            v@ == Self::encoded(self@),
    {
        let mut entries: Vec<(String, Value)> = Vec::new();
        entries.push(field("repository", put_text(&self.alias)));
        entries.push(field("type", put_text(&self.repository_type)));
        entries.push(field("name", put_text(&self.name)));
        entries.push(field("ref", put_text(&self.repository_ref)));
        proof {
            lemma_mapping_view(entries);
            assert(views_of(entries@) =~= Self::entries(self@));
        }
        Value::Mapping(entries)
    }

    proof fn lemma_encoded_is_not_null(x: RepositoryResourceView)
        ensures
            !(Self::encoded(x) is Null),
    {
    }

    /// Of a node that is accepted: decoding it, encoding what was read and
    /// decoding that gives what the first decoding gave.
    proof fn round_trip(v: ValueView)
        ensures
            Self::decoded(Self::encoded(Self::decoded(v)->Ok_0)) == Self::decoded(v),
    {
        let m = opened(v, Self::keys())->Ok_0;
        let x = Self::decoded(v)->Ok_0;
        let e = Self::entries(x);
        Self::lemma_keys_distinct();
        assert(e.len() == Self::keys().len());
        assert forall|i: int| 0 <= i < e.len() implies (#[trigger] e[i]).0 == Self::keys()[i] by {}
        lemma_entries_accepted(e, Self::keys());
        lemma_lookup_at(e, 0);
        lemma_lookup_at(e, 1);
        lemma_lookup_at(e, 2);
        lemma_lookup_at(e, 3);
    }
}

impl Decode for PipelineVariable {
    /// The first of variable group and name with value that accepts the node;
    /// where neither does, the failure of each.
    open spec fn decoded(v: ValueView) -> Result<PipelineVariableView, DecodeErrorView> {
        let group = VariableGroup::decoded(v);
        let variable = ValueVariable::decoded(v);
        if group is Ok {
            Ok(PipelineVariableView::Group(group->Ok_0))
        } else if variable is Ok {
            Ok(PipelineVariableView::Variable(variable->Ok_0))
        } else {
            Err(
                DecodeErrorView::NoVariantMatched {
                    path: Seq::empty(),
                    shapes: seq![Shape::VariableGroup, Shape::ValueVariable],
                    errors: seq![group->Err_0, variable->Err_0],
                },
            )
        }
    }

    fn decode(v: &Value) -> (r: Result<PipelineVariable, DecodeError>)
        ensures
            result_view(r) == Self::decoded(v@),
    {
        match VariableGroup::decode(v) {
            Ok(x) => Ok(PipelineVariable::Group(x)),
            Err(e0) => match ValueVariable::decode(v) {
                Ok(x) => Ok(PipelineVariable::Variable(x)),
                Err(e1) => Err(no_variant_of_two(Shape::VariableGroup, e0, Shape::ValueVariable, e1)),
            },
        }
    }
}

impl PipelineVariable {
    /// A mapping with a key that no candidate shape declares is refused by
    /// every candidate, each time for a key that it does not declare.
    pub proof fn law_undeclared_key_matches_no_shape(m: Seq<(Seq<char>, ValueView)>, i: int)
        requires
            0 <= i < m.len(),
            !VariableGroup::keys().contains(m[i].0),
            !ValueVariable::keys().contains(m[i].0),
        ensures
            Self::decoded(ValueView::Mapping(m)) matches Err(
                DecodeErrorView::NoVariantMatched { path, shapes, errors },
            ) && path.len() == 0 && errors.len() == 2 && forall|j: int|
                0 <= j < errors.len() ==> #[trigger] errors[j] is UnrecognizedField,
    {
        VariableGroup::law_undeclared_key_is_refused(m, i);
        ValueVariable::law_undeclared_key_is_refused(m, i);
    }
}

impl Encode for PipelineVariable {
    open spec fn encoded(x: PipelineVariableView) -> ValueView {
        match x {
            PipelineVariableView::Group(y) => VariableGroup::encoded(y),
            PipelineVariableView::Variable(y) => ValueVariable::encoded(y),
        }
    }

    fn encode(&self) -> (v: Value)
        ensures
            v@ == Self::encoded(self@),
    {
        match self {
            PipelineVariable::Group(y) => y.encode(),
            PipelineVariable::Variable(y) => y.encode(),
        }
    }

    proof fn lemma_encoded_is_not_null(x: PipelineVariableView)
        ensures
            !(Self::encoded(x) is Null),
    {
        match x {
            PipelineVariableView::Group(y) => VariableGroup::lemma_encoded_is_not_null(y),
            PipelineVariableView::Variable(y) => ValueVariable::lemma_encoded_is_not_null(y),
        }
    }

    /// Of a node that is accepted: decoding it, encoding what was read and
    /// decoding that gives what the first decoding gave.
    proof fn round_trip(v: ValueView)
        ensures
            Self::decoded(Self::encoded(Self::decoded(v)->Ok_0)) == Self::decoded(v),
    {
        if VariableGroup::decoded(v) is Ok {
            VariableGroup::round_trip(v);
        } else if VariableGroup::decoded(v) is Err && ValueVariable::decoded(v) is Ok {
            ValueVariable::round_trip(v);
            let e = ValueVariable::entries(ValueVariable::decoded(v)->Ok_0);
            reveal_strlit("name");
            assert("name"@.len() == 4);
            reveal_strlit("group");
            assert("group"@.len() == 5);
            assert(!VariableGroup::keys().contains(e[0].0));
            VariableGroup::law_undeclared_key_is_refused(e, 0);
        }
    }
}

impl VariableGroup {
    /// The keys of a variable group reference.
    pub open spec fn keys() -> Seq<Seq<char>> {
        seq![
            "group"@,
        ]
    }

    /// The entries of the document form of a variable group reference.
    pub open spec fn entries(x: VariableGroupView) -> Seq<(Seq<char>, ValueView)> {
        seq![
            ("group"@, ValueView::Text(x.group)),
        ]
    }

    /// The keys of a variable group reference differ from one another.
    pub proof fn lemma_keys_distinct()
        ensures
            forall|i: int, j: int|
                0 <= i < j < Self::keys().len() ==> Self::keys()[i] != Self::keys()[j],
    {
        reveal_strlit("group");
        assert("group"@.len() == 5);
    }

    /// A mapping with a key outside the keys of a variable group reference is
    /// refused for a key outside them, whatever else it holds.
    pub proof fn law_undeclared_key_is_refused(m: Seq<(Seq<char>, ValueView)>, i: int)
        requires
            0 <= i < m.len(),
            !Self::keys().contains(m[i].0),
        ensures
            Self::decoded(ValueView::Mapping(m)) matches Err(
                DecodeErrorView::UnrecognizedField { path, key },
            ) && path.len() == 0 && !Self::keys().contains(key),
    {
        lemma_entries_refused(m, Self::keys(), i);
    }
}

impl Decode for VariableGroup {
    open spec fn decoded(v: ValueView) -> Result<VariableGroupView, DecodeErrorView> {
        match opened(v, Self::keys()) {
            Err(e) => Err(e),
            Ok(m) => {
                let group = text_field(m, "group"@);
                if group is Err {
                    Err(group->Err_0)
                } else {
                    Ok(
                        VariableGroupView {
                            group: group->Ok_0,
                        },
                    )
                }
            },
        }
    }

    fn decode(v: &Value) -> (r: Result<VariableGroup, DecodeError>)
        ensures
            result_view(r) == Self::decoded(v@),
    {
        let keys = ["group"];
        assert(key_texts(keys@) =~= Self::keys());
        let m = open_shape(v, &keys)?;
        let group = get_text(m, "group")?;
        Ok(VariableGroup { group })
    }
}

impl Encode for VariableGroup {
    open spec fn encoded(x: VariableGroupView) -> ValueView {
        ValueView::Mapping(Self::entries(x))
    }

    fn encode(&self) -> (v: Value)
        ensures
            v@ == Self::encoded(self@),
    {
        let mut entries: Vec<(String, Value)> = Vec::new();
        entries.push(field("group", put_text(&self.group)));
        proof {
            lemma_mapping_view(entries);
            assert(views_of(entries@) =~= Self::entries(self@));
        }
        Value::Mapping(entries)
    }

    proof fn lemma_encoded_is_not_null(x: VariableGroupView)
        ensures
            !(Self::encoded(x) is Null),
    {
    }

    /// Of a node that is accepted: decoding it, encoding what was read and
    /// decoding that gives what the first decoding gave.
    proof fn round_trip(v: ValueView)
        ensures
            Self::decoded(Self::encoded(Self::decoded(v)->Ok_0)) == Self::decoded(v),
    {
        let m = opened(v, Self::keys())->Ok_0;
        let x = Self::decoded(v)->Ok_0;
        let e = Self::entries(x);
        Self::lemma_keys_distinct();
        assert(e.len() == Self::keys().len());
        assert forall|i: int| 0 <= i < e.len() implies (#[trigger] e[i]).0 == Self::keys()[i] by {}
        lemma_entries_accepted(e, Self::keys());
        lemma_lookup_at(e, 0);
    }
}

impl ValueVariable {
    /// The keys of a variable with a value.
    pub open spec fn keys() -> Seq<Seq<char>> {
        seq![
            "name"@,
            "value"@,
        ]
    }

    /// The entries of the document form of a variable with a value.
    pub open spec fn entries(x: ValueVariableView) -> Seq<(Seq<char>, ValueView)> {
        seq![
            ("name"@, ValueView::Text(x.name)),
            ("value"@, ValueView::Text(x.value)),
        ]
    }

    /// The keys of a variable with a value differ from one another.
    pub proof fn lemma_keys_distinct()
        ensures
            forall|i: int, j: int|
                0 <= i < j < Self::keys().len() ==> Self::keys()[i] != Self::keys()[j],
    {
        reveal_strlit("name");
        assert("name"@.len() == 4);
        reveal_strlit("value");
        assert("value"@.len() == 5);
    }

    /// A mapping with a key outside the keys of a variable with a value is
    /// refused for a key outside them, whatever else it holds.
    pub proof fn law_undeclared_key_is_refused(m: Seq<(Seq<char>, ValueView)>, i: int)
        requires
            0 <= i < m.len(),
            !Self::keys().contains(m[i].0),
        ensures
            Self::decoded(ValueView::Mapping(m)) matches Err(
                DecodeErrorView::UnrecognizedField { path, key },
            ) && path.len() == 0 && !Self::keys().contains(key),
    {
        lemma_entries_refused(m, Self::keys(), i);
    }
}

impl Decode for ValueVariable {
    open spec fn decoded(v: ValueView) -> Result<ValueVariableView, DecodeErrorView> {
        match opened(v, Self::keys()) {
            Err(e) => Err(e),
            Ok(m) => {
                let name = text_field(m, "name"@);
                let value = text_field(m, "value"@);
                if name is Err {
                    Err(name->Err_0)
                } else if value is Err {
                    Err(value->Err_0)
                } else {
                    Ok(
                        ValueVariableView {
                            name: name->Ok_0,
                            value: value->Ok_0,
                        },
                    )
                }
            },
        }
    }

    fn decode(v: &Value) -> (r: Result<ValueVariable, DecodeError>)
        ensures
            result_view(r) == Self::decoded(v@),
    {
        let keys = ["name", "value"];
        assert(key_texts(keys@) =~= Self::keys());
        let m = open_shape(v, &keys)?;
        let name = get_text(m, "name")?;
        let value = get_text(m, "value")?;
        Ok(ValueVariable { name, value })
    }
}

impl Encode for ValueVariable {
    open spec fn encoded(x: ValueVariableView) -> ValueView {
        ValueView::Mapping(Self::entries(x))
    }

    fn encode(&self) -> (v: Value)
        ensures
            v@ == Self::encoded(self@),
    {
        let mut entries: Vec<(String, Value)> = Vec::new();
        entries.push(field("name", put_text(&self.name)));
        entries.push(field("value", put_text(&self.value)));
        proof {
            lemma_mapping_view(entries);
            assert(views_of(entries@) =~= Self::entries(self@));
        }
        Value::Mapping(entries)
    }

    proof fn lemma_encoded_is_not_null(x: ValueVariableView)
        ensures
            !(Self::encoded(x) is Null),
    {
    }

    /// Of a node that is accepted: decoding it, encoding what was read and
    /// decoding that gives what the first decoding gave.
    proof fn round_trip(v: ValueView)
        ensures
            Self::decoded(Self::encoded(Self::decoded(v)->Ok_0)) == Self::decoded(v),
    {
        let m = opened(v, Self::keys())->Ok_0;
        let x = Self::decoded(v)->Ok_0;
        let e = Self::entries(x);
        Self::lemma_keys_distinct();
        assert(e.len() == Self::keys().len());
        assert forall|i: int| 0 <= i < e.len() implies (#[trigger] e[i]).0 == Self::keys()[i] by {}
        lemma_entries_accepted(e, Self::keys());
        lemma_lookup_at(e, 0);
        lemma_lookup_at(e, 1);
    }
}

impl PipelineParameter {
    /// The keys of a runtime parameter.
    pub open spec fn keys() -> Seq<Seq<char>> {
        seq![
            "name"@,
            "displayName"@,
            "type"@,
            "default"@,
            "values"@,
        ]
    }

    /// The entries of the document form of a runtime parameter.
    pub open spec fn entries(x: PipelineParameterView) -> Seq<(Seq<char>, ValueView)> {
        seq![
            ("name"@, ValueView::Text(x.name)),
            ("displayName"@, encoded_opt_text(x.display_name)),
            ("type"@, ValueView::Text(x.parameter_type)),
            ("default"@, encoded_opt_value(x.default)),
            ("values"@, encoded_texts(x.values)),
        ]
    }

    /// The keys of a runtime parameter differ from one another.
    pub proof fn lemma_keys_distinct()
        ensures
            forall|i: int, j: int|
                0 <= i < j < Self::keys().len() ==> Self::keys()[i] != Self::keys()[j],
    {
        reveal_strlit("name");
        assert("name"@.len() == 4);
        reveal_strlit("displayName");
        assert("displayName"@.len() == 11);
        reveal_strlit("type");
        assert("type"@.len() == 4);
        reveal_strlit("default");
        assert("default"@.len() == 7);
        reveal_strlit("values");
        assert("values"@.len() == 6);
        assert("name"@[0] != "type"@[0]);
    }

    /// A mapping with a key outside the keys of a runtime parameter is refused
    /// for a key outside them, whatever else it holds.
    pub proof fn law_undeclared_key_is_refused(m: Seq<(Seq<char>, ValueView)>, i: int)
        requires
            0 <= i < m.len(),
            !Self::keys().contains(m[i].0),
        ensures
            Self::decoded(ValueView::Mapping(m)) matches Err(
                DecodeErrorView::UnrecognizedField { path, key },
            ) && path.len() == 0 && !Self::keys().contains(key),
    {
        lemma_entries_refused(m, Self::keys(), i);
    }
}

impl Decode for PipelineParameter {
    open spec fn decoded(v: ValueView) -> Result<PipelineParameterView, DecodeErrorView> {
        match opened(v, Self::keys()) {
            Err(e) => Err(e),
            Ok(m) => {
                let name = text_field(m, "name"@);
                let display_name = opt_text_field(m, "displayName"@);
                let parameter_type = text_field(m, "type"@);
                let default = opt_value_field(m, "default"@);
                let values = texts_field(m, "values"@);
                if name is Err {
                    Err(name->Err_0)
                } else if display_name is Err {
                    Err(display_name->Err_0)
                } else if parameter_type is Err {
                    Err(parameter_type->Err_0)
                } else if default is Err {
                    Err(default->Err_0)
                } else if values is Err {
                    Err(values->Err_0)
                } else {
                    Ok(
                        PipelineParameterView {
                            name: name->Ok_0,
                            display_name: display_name->Ok_0,
                            parameter_type: parameter_type->Ok_0,
                            default: default->Ok_0,
                            values: values->Ok_0,
                        },
                    )
                }
            },
        }
    }

    fn decode(v: &Value) -> (r: Result<PipelineParameter, DecodeError>)
        ensures
            result_view(r) == Self::decoded(v@),
    {
        let keys = ["name", "displayName", "type", "default", "values"];
        assert(key_texts(keys@) =~= Self::keys());
        let m = open_shape(v, &keys)?;
        let name = get_text(m, "name")?;
        let display_name = get_opt_text(m, "displayName")?;
        let parameter_type = get_text(m, "type")?;
        let default = get_opt_value(m, "default")?;
        let values = get_texts(m, "values")?;
        Ok(PipelineParameter { name, display_name, parameter_type, default, values })
    }
}

impl Encode for PipelineParameter {
    open spec fn encoded(x: PipelineParameterView) -> ValueView {
        ValueView::Mapping(Self::entries(x))
    }

    fn encode(&self) -> (v: Value)
        ensures
            v@ == Self::encoded(self@),
    {
        let mut entries: Vec<(String, Value)> = Vec::new();
        entries.push(field("name", put_text(&self.name)));
        entries.push(field("displayName", put_opt_text(&self.display_name)));
        entries.push(field("type", put_text(&self.parameter_type)));
        entries.push(field("default", put_opt_value(&self.default)));
        entries.push(field("values", put_texts(&self.values)));
        proof {
            lemma_mapping_view(entries);
            assert(views_of(entries@) =~= Self::entries(self@));
        }
        Value::Mapping(entries)
    }

    proof fn lemma_encoded_is_not_null(x: PipelineParameterView)
        ensures
            !(Self::encoded(x) is Null),
    {
    }

    /// Of a node that is accepted: decoding it, encoding what was read and
    /// decoding that gives what the first decoding gave.
    proof fn round_trip(v: ValueView)
        ensures
            Self::decoded(Self::encoded(Self::decoded(v)->Ok_0)) == Self::decoded(v),
    {
        let m = opened(v, Self::keys())->Ok_0;
        let x = Self::decoded(v)->Ok_0;
        let e = Self::entries(x);
        Self::lemma_keys_distinct();
        assert(e.len() == Self::keys().len());
        assert forall|i: int| 0 <= i < e.len() implies (#[trigger] e[i]).0 == Self::keys()[i] by {}
        lemma_entries_accepted(e, Self::keys());
        lemma_lookup_at(e, 0);
        lemma_lookup_at(e, 1);
        lemma_lookup_at(e, 2);
        lemma_lookup_at(e, 3);
        lemma_lookup_at(e, 4);
        lemma_texts_round_trip("values"@, x.values);
    }
}

} // verus!
