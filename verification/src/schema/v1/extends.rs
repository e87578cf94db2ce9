//! Extending a pipeline using a template.

use crate::decode::{
    flag_field, items_field, key_texts, lookup, nested_field, opened, opt_nested_field, opt_view,
    present, result_view, text_field, text_pairs_field, texts_field, Decode,
};
use crate::encode::{
    encoded_items, encoded_opt, encoded_text_pairs, encoded_texts, field, lemma_entries_accepted,
    lemma_entries_refused, lemma_items_field_round_trip, lemma_lookup_at,
    lemma_text_pairs_round_trip, lemma_texts_round_trip, put_items, put_opt, put_text,
    put_text_pairs, put_texts, Encode,
};
use crate::error::{DecodeError, DecodeErrorView};
use crate::fields::{
    get_flag, get_items, get_nested, get_opt_nested, get_text, get_text_pairs, get_texts,
    open_shape,
};
use crate::schema::v1::stage::{Stage, StageView};
use crate::value::{lemma_mapping_view, views_of, Value, ValueView};
use vstd::prelude::*;

verus! {

/// Extends a pipeline using a template.
#[derive(Clone, Debug, PartialEq, Default)]
pub struct Extends {
    /// The template referenced by the pipeline to extend
    pub template: String,
    /// Parameters used in the extend
    pub parameters: ExtendsParameters,
}

pub ghost struct ExtendsView {
    pub template: Seq<char>,
    pub parameters: ExtendsParametersView,
}

impl View for Extends {
    type V = ExtendsView;

    open spec fn view(&self) -> ExtendsView {
        ExtendsView {
            template: self.template@,
            parameters: self.parameters@,
        }
    }
}

/// The parameters handed to the extended template.
#[derive(Clone, Debug, PartialEq, Default)]
pub struct ExtendsParameters {
    /// Containers used in the build
    pub containers: Vec<(String, String)>,
    /// Tags that display on the pipeline page
    pub custom_build_tags: Vec<String>,
    /// Enable optional pipeline features
    pub feature_flags: Option<FeatureFlags>,
    /// Stages are groups of jobs that can run without human intervention
    pub stages: Vec<Stage>,
}

pub ghost struct ExtendsParametersView {
    pub containers: Seq<(Seq<char>, Seq<char>)>,
    pub custom_build_tags: Seq<Seq<char>>,
    pub feature_flags: Option<FeatureFlagsView>,
    pub stages: Seq<StageView>,
}

impl View for ExtendsParameters {
    type V = ExtendsParametersView;

    open spec fn view(&self) -> ExtendsParametersView {
        ExtendsParametersView {
            containers: views_of(self.containers@),
            custom_build_tags: views_of(self.custom_build_tags@),
            feature_flags: opt_view(self.feature_flags),
            stages: views_of(self.stages@),
        }
    }
}

/// Enable optional pipeline features.
#[derive(Clone, Debug, PartialEq, Default)]
pub struct FeatureFlags {
    /// Enable optional pipeline features for Go
    pub golang: GolangFeatureFlags,
}

pub ghost struct FeatureFlagsView {
    pub golang: GolangFeatureFlagsView,
}

impl View for FeatureFlags {
    type V = FeatureFlagsView;

    open spec fn view(&self) -> FeatureFlagsView {
        FeatureFlagsView {
            golang: self.golang@,
        }
    }
}

/// Enable optional pipeline features for Go.
#[derive(Clone, Debug, PartialEq, Default)]
pub struct GolangFeatureFlags {
    /// Enable Go module proxy
    pub internal_module_proxy: GoProxy,
}

pub ghost struct GolangFeatureFlagsView {
    pub internal_module_proxy: GoProxyView,
}

impl View for GolangFeatureFlags {
    type V = GolangFeatureFlagsView;

    open spec fn view(&self) -> GolangFeatureFlagsView {
        GolangFeatureFlagsView {
            internal_module_proxy: self.internal_module_proxy@,
        }
    }
}

/// Enable Go module proxy.
#[derive(Clone, Debug, PartialEq, Default)]
pub struct GoProxy {
    /// Enable Go module proxy
    pub enabled: bool,
}

pub ghost struct GoProxyView {
    pub enabled: bool,
}

impl View for GoProxy {
    type V = GoProxyView;

    open spec fn view(&self) -> GoProxyView {
        GoProxyView {
            enabled: self.enabled,
        }
    }
}

impl Extends {
    /// The keys of an `extends` node.
    pub open spec fn keys() -> Seq<Seq<char>> {
        seq![
            "template"@,
            "parameters"@,
        ]
    }

    /// The entries of the document form of an `extends` node.
    pub open spec fn entries(x: ExtendsView) -> Seq<(Seq<char>, ValueView)> {
        seq![
            ("template"@, ValueView::Text(x.template)),
            ("parameters"@, ExtendsParameters::encoded(x.parameters)),
        ]
    }

    /// The keys of an `extends` node differ from one another.
    pub proof fn lemma_keys_distinct()
        ensures
            forall|i: int, j: int|
                0 <= i < j < Self::keys().len() ==> Self::keys()[i] != Self::keys()[j],
    {
        reveal_strlit("template");
        assert("template"@.len() == 8);
        reveal_strlit("parameters");
        assert("parameters"@.len() == 10);
    }

    /// A mapping with a key outside the keys of an `extends` node is refused
    /// for a key outside them, whatever else it holds.
    pub proof fn law_undeclared_key_is_refused(m: Seq<(Seq<char>, ValueView)>, i: int)
        requires
            0 <= i < m.len(),
            !Self::keys().contains(m[i].0),
        ensures
            Self::decoded(ValueView::Mapping(m)) matches Err(
                DecodeErrorView::UnrecognizedField { path, key },
            ) && path.len() == 0 && !Self::keys().contains(key),
    {
        lemma_entries_refused(m, Self::keys(), i);
    }
}

impl Decode for Extends {
    open spec fn decoded(v: ValueView) -> Result<ExtendsView, DecodeErrorView> {
        match opened(v, Self::keys()) {
            Err(e) => Err(e),
            Ok(m) => {
                let template = text_field(m, "template"@);
                let parameters = nested_field::<ExtendsParameters>(m, "parameters"@);
                if template is Err {
                    Err(template->Err_0)
                } else if parameters is Err {
                    Err(parameters->Err_0)
                } else {
                    Ok(
                        ExtendsView {
                            template: template->Ok_0,
                            parameters: parameters->Ok_0,
                        },
                    )
                }
            },
        }
    }

    fn decode(v: &Value) -> (r: Result<Extends, DecodeError>)
        ensures
            result_view(r) == Self::decoded(v@),
    {
        let keys = ["template", "parameters"];
        assert(key_texts(keys@) =~= Self::keys());
        let m = open_shape(v, &keys)?;
        let template = get_text(m, "template")?;
        let parameters = get_nested::<ExtendsParameters>(m, "parameters")?;
        Ok(Extends { template, parameters })
    }
}

impl Encode for Extends {
    open spec fn encoded(x: ExtendsView) -> ValueView {
        ValueView::Mapping(Self::entries(x))
    }

    fn encode(&self) -> (v: Value)
        ensures
            v@ == Self::encoded(self@),
    {
        let mut entries: Vec<(String, Value)> = Vec::new();
        entries.push(field("template", put_text(&self.template)));
        entries.push(field("parameters", self.parameters.encode()));
        proof {
            lemma_mapping_view(entries);
            assert(views_of(entries@) =~= Self::entries(self@));
        }
        Value::Mapping(entries)
    }

    proof fn lemma_encoded_is_not_null(x: ExtendsView)
        ensures
            !(Self::encoded(x) is Null),
    {
    }

    /// Of a node that is accepted: decoding it, encoding what was read and
    /// decoding that gives what the first decoding gave.
    proof fn round_trip(v: ValueView)
        ensures
            Self::decoded(Self::encoded(Self::decoded(v)->Ok_0)) == Self::decoded(v),
    {
        let m = opened(v, Self::keys())->Ok_0;
        let x = Self::decoded(v)->Ok_0;
        let e = Self::entries(x);
        Self::lemma_keys_distinct();
        assert(e.len() == Self::keys().len());
        assert forall|i: int| 0 <= i < e.len() implies (#[trigger] e[i]).0 == Self::keys()[i] by {}
        lemma_entries_accepted(e, Self::keys());
        lemma_lookup_at(e, 0);
        lemma_lookup_at(e, 1);
        ExtendsParameters::round_trip(lookup(m, "parameters"@)->Some_0);
    }
}

impl ExtendsParameters {
    /// The keys of the parameters of an `extends` node.
    pub open spec fn keys() -> Seq<Seq<char>> {
        seq![
            "containers"@,
            "customBuildTags"@,
            "featureFlags"@,
            "stages"@,
        ]
    }

    /// The entries of the document form of the parameters of an `extends` node.
    pub open spec fn entries(x: ExtendsParametersView) -> Seq<(Seq<char>, ValueView)> {
        seq![
            ("containers"@, encoded_text_pairs(x.containers)),
            ("customBuildTags"@, encoded_texts(x.custom_build_tags)),
            ("featureFlags"@, encoded_opt::<FeatureFlags>(x.feature_flags)),
            ("stages"@, encoded_items::<Stage>(x.stages)),
        ]
    }

    /// The keys of the parameters of an `extends` node differ from one another.
    pub proof fn lemma_keys_distinct()
        ensures
            forall|i: int, j: int|
                0 <= i < j < Self::keys().len() ==> Self::keys()[i] != Self::keys()[j],
    {
        reveal_strlit("containers");
        assert("containers"@.len() == 10);
        reveal_strlit("customBuildTags");
        assert("customBuildTags"@.len() == 15);
        reveal_strlit("featureFlags");
        assert("featureFlags"@.len() == 12);
        reveal_strlit("stages");
        assert("stages"@.len() == 6);
    }

    /// A mapping with a key outside the keys of the parameters of an `extends`
    /// node is refused for a key outside them, whatever else it holds.
    pub proof fn law_undeclared_key_is_refused(m: Seq<(Seq<char>, ValueView)>, i: int)
        requires
            0 <= i < m.len(),
            !Self::keys().contains(m[i].0),
        ensures
            Self::decoded(ValueView::Mapping(m)) matches Err(
                DecodeErrorView::UnrecognizedField { path, key },
            ) && path.len() == 0 && !Self::keys().contains(key),
    {
        lemma_entries_refused(m, Self::keys(), i);
    }
}

impl Decode for ExtendsParameters {
    /// Of the parameters only `stages` is required.
    open spec fn decoded(v: ValueView) -> Result<ExtendsParametersView, DecodeErrorView> {
        match opened(v, Self::keys()) {
            Err(e) => Err(e),
            Ok(m) => {
                let containers = text_pairs_field(m, "containers"@, false);
                let custom_build_tags = texts_field(m, "customBuildTags"@);
                let feature_flags = opt_nested_field::<FeatureFlags>(m, "featureFlags"@);
                let stages = items_field::<Stage>(m, "stages"@, true);
                if containers is Err {
                    Err(containers->Err_0)
                } else if custom_build_tags is Err {
                    Err(custom_build_tags->Err_0)
                } else if feature_flags is Err {
                    Err(feature_flags->Err_0)
                } else if stages is Err {
                    Err(stages->Err_0)
                } else {
                    Ok(
                        ExtendsParametersView {
                            containers: containers->Ok_0,
                            custom_build_tags: custom_build_tags->Ok_0,
                            feature_flags: feature_flags->Ok_0,
                            stages: stages->Ok_0,
                        },
                    )
                }
            },
        }
    }

    fn decode(v: &Value) -> (r: Result<ExtendsParameters, DecodeError>)
        ensures
            result_view(r) == Self::decoded(v@),
    {
        let keys = ["containers", "customBuildTags", "featureFlags", "stages"];
        assert(key_texts(keys@) =~= Self::keys());
        let m = open_shape(v, &keys)?;
        let containers = get_text_pairs(m, "containers", false)?;
        let custom_build_tags = get_texts(m, "customBuildTags")?;
        let feature_flags = get_opt_nested::<FeatureFlags>(m, "featureFlags")?;
        let stages = get_items::<Stage>(m, "stages", true)?;
        Ok(ExtendsParameters { containers, custom_build_tags, feature_flags, stages })
    }
}

impl Encode for ExtendsParameters {
    open spec fn encoded(x: ExtendsParametersView) -> ValueView {
        ValueView::Mapping(Self::entries(x))
    }

    fn encode(&self) -> (v: Value)
        ensures
            v@ == Self::encoded(self@),
    {
        let mut entries: Vec<(String, Value)> = Vec::new();
        entries.push(field("containers", put_text_pairs(&self.containers)));
        entries.push(field("customBuildTags", put_texts(&self.custom_build_tags)));
        entries.push(field("featureFlags", put_opt::<FeatureFlags>(&self.feature_flags)));
        entries.push(field("stages", put_items::<Stage>(&self.stages)));
        proof {
            lemma_mapping_view(entries);
            assert(views_of(entries@) =~= Self::entries(self@));
        }
        Value::Mapping(entries)
    }

    proof fn lemma_encoded_is_not_null(x: ExtendsParametersView)
        ensures
            !(Self::encoded(x) is Null),
    {
    }

    /// Of a node that is accepted: decoding it, encoding what was read and
    /// decoding that gives what the first decoding gave.
    proof fn round_trip(v: ValueView)
        ensures
            Self::decoded(Self::encoded(Self::decoded(v)->Ok_0)) == Self::decoded(v),
    {
        let m = opened(v, Self::keys())->Ok_0;
        let x = Self::decoded(v)->Ok_0;
        let e = Self::entries(x);
        Self::lemma_keys_distinct();
        assert(e.len() == Self::keys().len());
        assert forall|i: int| 0 <= i < e.len() implies (#[trigger] e[i]).0 == Self::keys()[i] by {}
        lemma_entries_accepted(e, Self::keys());
        lemma_lookup_at(e, 0);
        lemma_lookup_at(e, 1);
        lemma_lookup_at(e, 2);
        lemma_lookup_at(e, 3);
        lemma_text_pairs_round_trip("containers"@, x.containers);
        lemma_texts_round_trip("customBuildTags"@, x.custom_build_tags);
        if present(m, "featureFlags"@) is Some {
            FeatureFlags::round_trip(present(m, "featureFlags"@)->Some_0);
            FeatureFlags::lemma_encoded_is_not_null(x.feature_flags->Some_0);
        }
        lemma_items_field_round_trip::<Stage>(m, "stages"@, true);
    }
}

impl FeatureFlags {
    /// The keys of the feature flags.
    pub open spec fn keys() -> Seq<Seq<char>> {
        seq![
            "golang"@,
        ]
    }

    /// The entries of the document form of the feature flags.
    pub open spec fn entries(x: FeatureFlagsView) -> Seq<(Seq<char>, ValueView)> {
        seq![
            ("golang"@, GolangFeatureFlags::encoded(x.golang)),
        ]
    }

    /// The keys of the feature flags differ from one another.
    pub proof fn lemma_keys_distinct()
        ensures
            forall|i: int, j: int|
                0 <= i < j < Self::keys().len() ==> Self::keys()[i] != Self::keys()[j],
    {
        reveal_strlit("golang");
        assert("golang"@.len() == 6);
    }

    /// A mapping with a key outside the keys of the feature flags is refused
    /// for a key outside them, whatever else it holds.
    pub proof fn law_undeclared_key_is_refused(m: Seq<(Seq<char>, ValueView)>, i: int)
        requires
            0 <= i < m.len(),
            !Self::keys().contains(m[i].0),
        ensures
            Self::decoded(ValueView::Mapping(m)) matches Err(
                DecodeErrorView::UnrecognizedField { path, key },
            ) && path.len() == 0 && !Self::keys().contains(key),
    {
        lemma_entries_refused(m, Self::keys(), i);
    }
}

impl Decode for FeatureFlags {
    open spec fn decoded(v: ValueView) -> Result<FeatureFlagsView, DecodeErrorView> {
        match opened(v, Self::keys()) {
            Err(e) => Err(e),
            Ok(m) => {
                let golang = nested_field::<GolangFeatureFlags>(m, "golang"@);
                if golang is Err {
                    Err(golang->Err_0)
                } else {
                    Ok(
                        FeatureFlagsView {
                            golang: golang->Ok_0,
                        },
                    )
                }
            },
        }
    }

    fn decode(v: &Value) -> (r: Result<FeatureFlags, DecodeError>)
        ensures
            result_view(r) == Self::decoded(v@),
    {
        let keys = ["golang"];
        assert(key_texts(keys@) =~= Self::keys());
        let m = open_shape(v, &keys)?;
        let golang = get_nested::<GolangFeatureFlags>(m, "golang")?;
        Ok(FeatureFlags { golang })
    }
}

impl Encode for FeatureFlags {
    open spec fn encoded(x: FeatureFlagsView) -> ValueView {
        ValueView::Mapping(Self::entries(x))
    }

    fn encode(&self) -> (v: Value)
        ensures
            v@ == Self::encoded(self@),
    {
        let mut entries: Vec<(String, Value)> = Vec::new();
        entries.push(field("golang", self.golang.encode()));
        proof {
            lemma_mapping_view(entries);
            assert(views_of(entries@) =~= Self::entries(self@));
        }
        Value::Mapping(entries)
    }

    proof fn lemma_encoded_is_not_null(x: FeatureFlagsView)
        ensures
            !(Self::encoded(x) is Null),
    {
    }

    /// Of a node that is accepted: decoding it, encoding what was read and
    /// decoding that gives what the first decoding gave.
    proof fn round_trip(v: ValueView)
        ensures
            Self::decoded(Self::encoded(Self::decoded(v)->Ok_0)) == Self::decoded(v),
    {
        let m = opened(v, Self::keys())->Ok_0;
        let x = Self::decoded(v)->Ok_0;
        let e = Self::entries(x);
        Self::lemma_keys_distinct();
        assert(e.len() == Self::keys().len());
        assert forall|i: int| 0 <= i < e.len() implies (#[trigger] e[i]).0 == Self::keys()[i] by {}
        lemma_entries_accepted(e, Self::keys());
        lemma_lookup_at(e, 0);
        GolangFeatureFlags::round_trip(lookup(m, "golang"@)->Some_0);
    }
}

impl GolangFeatureFlags {
    /// The keys of the feature flags for Go.
    pub open spec fn keys() -> Seq<Seq<char>> {
        seq![
            "internalModuleProxy"@,
        ]
    }

    /// The entries of the document form of the feature flags for Go.
    pub open spec fn entries(x: GolangFeatureFlagsView) -> Seq<(Seq<char>, ValueView)> {
        seq![
            ("internalModuleProxy"@, GoProxy::encoded(x.internal_module_proxy)),
        ]
    }

    /// The keys of the feature flags for Go differ from one another.
    pub proof fn lemma_keys_distinct()
        ensures
            forall|i: int, j: int|
                0 <= i < j < Self::keys().len() ==> Self::keys()[i] != Self::keys()[j],
    {
        reveal_strlit("internalModuleProxy");
        assert("internalModuleProxy"@.len() == 19);
    }

    /// A mapping with a key outside the keys of the feature flags for Go is
    /// refused for a key outside them, whatever else it holds.
    pub proof fn law_undeclared_key_is_refused(m: Seq<(Seq<char>, ValueView)>, i: int)
        requires
            0 <= i < m.len(),
            !Self::keys().contains(m[i].0),
        ensures
            Self::decoded(ValueView::Mapping(m)) matches Err(
                DecodeErrorView::UnrecognizedField { path, key },
            ) && path.len() == 0 && !Self::keys().contains(key),
    {
        lemma_entries_refused(m, Self::keys(), i);
    }
}

impl Decode for GolangFeatureFlags {
    open spec fn decoded(v: ValueView) -> Result<GolangFeatureFlagsView, DecodeErrorView> {
        match opened(v, Self::keys()) {
            Err(e) => Err(e),
            Ok(m) => {
                let internal_module_proxy = nested_field::<GoProxy>(m, "internalModuleProxy"@);
                if internal_module_proxy is Err {
                    Err(internal_module_proxy->Err_0)
                } else {
                    Ok(
                        GolangFeatureFlagsView {
                            internal_module_proxy: internal_module_proxy->Ok_0,
                        },
                    )
                }
            },
        }
    }

    fn decode(v: &Value) -> (r: Result<GolangFeatureFlags, DecodeError>)
        ensures
            result_view(r) == Self::decoded(v@),
    {
        let keys = ["internalModuleProxy"];
        assert(key_texts(keys@) =~= Self::keys());
        let m = open_shape(v, &keys)?;
        let internal_module_proxy = get_nested::<GoProxy>(m, "internalModuleProxy")?;
        Ok(GolangFeatureFlags { internal_module_proxy })
    }
}

impl Encode for GolangFeatureFlags {
    open spec fn encoded(x: GolangFeatureFlagsView) -> ValueView {
        ValueView::Mapping(Self::entries(x))
    }

    fn encode(&self) -> (v: Value)
        ensures
            v@ == Self::encoded(self@),
    {
        let mut entries: Vec<(String, Value)> = Vec::new();
        entries.push(field("internalModuleProxy", self.internal_module_proxy.encode()));
        proof {
            lemma_mapping_view(entries);
            assert(views_of(entries@) =~= Self::entries(self@));
        }
        Value::Mapping(entries)
    }

    proof fn lemma_encoded_is_not_null(x: GolangFeatureFlagsView)
        ensures
            !(Self::encoded(x) is Null),
    {
    }

    /// Of a node that is accepted: decoding it, encoding what was read and
    /// decoding that gives what the first decoding gave.
    proof fn round_trip(v: ValueView)
        ensures
            Self::decoded(Self::encoded(Self::decoded(v)->Ok_0)) == Self::decoded(v),
    {
        let m = opened(v, Self::keys())->Ok_0;
        let x = Self::decoded(v)->Ok_0;
        let e = Self::entries(x);
        Self::lemma_keys_distinct();
        assert(e.len() == Self::keys().len());
        assert forall|i: int| 0 <= i < e.len() implies (#[trigger] e[i]).0 == Self::keys()[i] by {}
        lemma_entries_accepted(e, Self::keys());
        lemma_lookup_at(e, 0);
        GoProxy::round_trip(lookup(m, "internalModuleProxy"@)->Some_0);
    }
}

impl GoProxy {
    /// The keys of the Go module proxy flags.
    pub open spec fn keys() -> Seq<Seq<char>> {
        seq![
            "enabled"@,
        ]
    }

    /// The entries of the document form of the Go module proxy flags.
    pub open spec fn entries(x: GoProxyView) -> Seq<(Seq<char>, ValueView)> {
        seq![
            ("enabled"@, ValueView::Bool(x.enabled)),
        ]
    }

    /// The keys of the Go module proxy flags differ from one another.
    pub proof fn lemma_keys_distinct()
        ensures
            forall|i: int, j: int|
                0 <= i < j < Self::keys().len() ==> Self::keys()[i] != Self::keys()[j],
    {
        reveal_strlit("enabled");
        assert("enabled"@.len() == 7);
    }

    /// A mapping with a key outside the keys of the Go module proxy flags is
    /// refused for a key outside them, whatever else it holds.
    pub proof fn law_undeclared_key_is_refused(m: Seq<(Seq<char>, ValueView)>, i: int)
        requires
            0 <= i < m.len(),
            !Self::keys().contains(m[i].0),
        ensures
            Self::decoded(ValueView::Mapping(m)) matches Err(
                DecodeErrorView::UnrecognizedField { path, key },
            ) && path.len() == 0 && !Self::keys().contains(key),
    {
        lemma_entries_refused(m, Self::keys(), i);
    }
}

impl Decode for GoProxy {
    open spec fn decoded(v: ValueView) -> Result<GoProxyView, DecodeErrorView> {
        match opened(v, Self::keys()) {
            Err(e) => Err(e),
            Ok(m) => {
                let enabled = flag_field(m, "enabled"@);
                if enabled is Err {
                    Err(enabled->Err_0)
                } else {
                    Ok(
                        GoProxyView {
                            enabled: enabled->Ok_0,
                        },
                    )
                }
            },
        }
    }

    fn decode(v: &Value) -> (r: Result<GoProxy, DecodeError>)
        ensures
            result_view(r) == Self::decoded(v@),
    {
        let keys = ["enabled"];
        assert(key_texts(keys@) =~= Self::keys());
        let m = open_shape(v, &keys)?;
        let enabled = get_flag(m, "enabled")?;
        Ok(GoProxy { enabled })
    }
}

impl Encode for GoProxy {
    open spec fn encoded(x: GoProxyView) -> ValueView {
        ValueView::Mapping(Self::entries(x))
    }

    fn encode(&self) -> (v: Value)
        ensures
            v@ == Self::encoded(self@),
    {
        let mut entries: Vec<(String, Value)> = Vec::new();
        entries.push(field("enabled", Value::Bool(self.enabled)));
        proof {
            lemma_mapping_view(entries);
            assert(views_of(entries@) =~= Self::entries(self@));
        }
        Value::Mapping(entries)
    }

    proof fn lemma_encoded_is_not_null(x: GoProxyView)
        ensures
            !(Self::encoded(x) is Null),
    {
    }

    /// Of a node that is accepted: decoding it, encoding what was read and
    /// decoding that gives what the first decoding gave.
    proof fn round_trip(v: ValueView)
        ensures
            Self::decoded(Self::encoded(Self::decoded(v)->Ok_0)) == Self::decoded(v),
    {
        let m = opened(v, Self::keys())->Ok_0;
        let x = Self::decoded(v)->Ok_0;
        let e = Self::entries(x);
        Self::lemma_keys_distinct();
        assert(e.len() == Self::keys().len());
        assert forall|i: int| 0 <= i < e.len() implies (#[trigger] e[i]).0 == Self::keys()[i] by {}
        lemma_entries_accepted(e, Self::keys());
        lemma_lookup_at(e, 0);
    }
}

} // verus!
