//! The files of a model bundle: which have to be there, and which graphs are
//! loaded.

use crate::config::{LFM25AudioOnnxConfig, LFM25AudioPrecision};
use crate::error::NodeError;
use crate::text;
use vstd::prelude::*;

verus! {

/// File name of a graph: its stem, the precision, and what tells variants of
/// it apart.
pub open spec fn graph_file(
    stem: Seq<char>,
    precision: LFM25AudioPrecision,
    variant: Seq<char>,
) -> Seq<char> {
    stem + precision.suffix_text() + variant + ".onnx"@
}

/// Names the file of a graph.
pub fn graph_name(stem: &str, precision: LFM25AudioPrecision, variant: &str) -> (name: String)
    ensures
        name@ == graph_file(stem@, precision, variant@),
{
    let mut name = text::concat(stem, precision.suffix());
    name.append(variant);
    name.append(".onnx");
    name
}

/// The graphs that every bundle has.
pub open spec fn required_graphs(precision: LFM25AudioPrecision) -> Seq<Seq<char>> {
    seq![
        graph_file("decoder"@, precision, ""@),
        graph_file("audio_encoder"@, precision, ""@),
        graph_file("audio_embedding"@, precision, ""@),
        graph_file("audio_detokenizer"@, precision, ""@),
        graph_file("vocoder_depthformer"@, precision, ""@),
    ]
}

/// The files that every bundle has: its graphs, then its tables.
pub open spec fn required_names(precision: LFM25AudioPrecision) -> Seq<Seq<char>> {
    required_graphs(precision) + seq![
        "embed_tokens.bin"@,
        "embed_tokens.json"@,
        "audio_embedding.bin"@,
        "audio_embedding.json"@,
        "mel_config.json"@,
    ]
}

/// Lists the files that every bundle has.
pub fn required_files(precision: LFM25AudioPrecision) -> (names: Vec<String>)
    ensures
        text::views(names@) == required_names(precision),
{
    let mut names: Vec<String> = Vec::new();
    names.push(graph_name("decoder", precision, ""));
    names.push(graph_name("audio_encoder", precision, ""));
    names.push(graph_name("audio_embedding", precision, ""));
    names.push(graph_name("audio_detokenizer", precision, ""));
    names.push(graph_name("vocoder_depthformer", precision, ""));
    names.push("embed_tokens.bin".to_string());
    names.push("embed_tokens.json".to_string());
    names.push("audio_embedding.bin".to_string());
    names.push("audio_embedding.json".to_string());
    names.push("mel_config.json".to_string());
    assert(text::views(names@) =~= required_names(precision));
    names
}

/// Whether `entry` holds external data of the graph `graph`.
pub open spec fn is_sidecar(entry: Seq<char>, graph: Seq<char>) -> bool {
    entry == graph + "_data"@ || text::has_prefix(entry, graph + "_data"@ + "_"@)
}

/// Whether one of `listing` holds external data of the graph `graph`.
pub open spec fn has_sidecar(listing: Seq<String>, graph: Seq<char>) -> bool {
    exists|i: int| 0 <= i < listing.len() && is_sidecar((#[trigger] listing[i])@, graph)
}

/// Tells whether the directory with these entries holds external data of the
/// graph `graph`.
pub fn split_data_sidecars_present(graph: &str, listing: &Vec<String>) -> (present: bool)
    ensures
        present == has_sidecar(listing@, graph@),
{
    let whole = text::concat(graph, "_data");
    let part = text::concat(whole.as_str(), "_");
    for i in 0..listing.len()
        invariant
            whole@ == graph@ + "_data"@,
            part@ == graph@ + "_data"@ + "_"@,
            forall|j: int| 0 <= j < i ==> !is_sidecar((#[trigger] listing@[j])@, graph@),
    {
        let entry = listing[i].as_str();
        if text::same_text(entry, whole.as_str()) || text::begins_with(entry, part.as_str()) {
            assert(is_sidecar(listing@[i as int]@, graph@));
            return true;
        }
    }
    false
}

/// What is known of a required file.
#[derive(Debug)]
pub struct FileProbe {
    /// Its path, for messages.
    pub display: String,
    pub exists: bool,
}

/// The paths of the files that do not exist.
pub open spec fn absent(probes: Seq<FileProbe>) -> Seq<Seq<char>>
    decreases probes.len(),
{
    if probes.len() == 0 {
        Seq::empty()
    } else if probes.last().exists {
        absent(probes.drop_last())
    } else {
        absent(probes.drop_last()).push(probes.last().display@)
    }
}

/// What is said of a graph whose external data is missing.
pub open spec fn sidecar_notice(path: Seq<char>, graph: Seq<char>) -> Seq<char> {
    path + " external data sidecar(s): expected "@ + graph + "_data*"@
}

/// Whether the graph `at` exists without its external data.
pub open spec fn lacks_sidecar(
    precision: LFM25AudioPrecision,
    probes: Seq<FileProbe>,
    listing: Seq<String>,
    at: int,
) -> bool {
    probes[at].exists && !has_sidecar(listing, required_graphs(precision)[at])
}

/// What is said of the first `graphs` graphs that lack their external data.
pub open spec fn bare_graphs(
    precision: LFM25AudioPrecision,
    probes: Seq<FileProbe>,
    listing: Seq<String>,
    graphs: int,
) -> Seq<Seq<char>>
    decreases graphs,
{
    if graphs <= 0 {
        Seq::empty()
    } else {
        let earlier = bare_graphs(precision, probes, listing, graphs - 1);
        if lacks_sidecar(precision, probes, listing, graphs - 1) {
            earlier.push(
                sidecar_notice(
                    probes[graphs - 1].display@,
                    required_graphs(precision)[graphs - 1],
                ),
            )
        } else {
            earlier
        }
    }
}

/// Everything that a bundle lacks.
pub open spec fn lacking(
    precision: LFM25AudioPrecision,
    probes: Seq<FileProbe>,
    listing: Seq<String>,
) -> Seq<Seq<char>> {
    absent(probes) + bare_graphs(precision, probes, listing, 5)
}

/// Checks a bundle: `probes` says of each required file, in the order of
/// [`required_files`], whether it exists; `listing` holds the entries of the
/// directory that they lie in. Everything that is missing is named.
pub fn validate_bundle(
    precision: LFM25AudioPrecision,
    probes: &Vec<FileProbe>,
    listing: &Vec<String>,
) -> (result: Result<(), NodeError>)
    requires
        probes@.len() == required_names(precision).len(),
    ensures
        match result {
            Ok(_) => lacking(precision, probes@, listing@).len() == 0,
            Err(error) => {
                &&& lacking(precision, probes@, listing@).len() > 0
                &&& error matches NodeError::IncompleteBundle(missing)
                &&& text::views(missing@) == lacking(precision, probes@, listing@)
            },
        },
{
    let names = required_files(precision);
    let mut missing: Vec<String> = Vec::new();
    assert(text::views(missing@) =~= absent(probes@.take(0)));
    for i in 0..probes.len()
        invariant
            text::views(missing@) == absent(probes@.take(i as int)),
    {
        assert(probes@.take(i + 1).drop_last() =~= probes@.take(i as int));
        if !probes[i].exists {
            let ghost before = missing@;
            missing.push(probes[i].display.clone());
            assert(text::views(missing@) =~= text::views(before).push(
                probes@[i as int].display@,
            ));
        }
    }
    assert(probes@.take(probes@.len() as int) =~= probes@);
    assert(text::views(missing@) =~= absent(probes@) + bare_graphs(
        precision,
        probes@,
        listing@,
        0,
    ));
    for i in 0..5usize
        invariant
            probes@.len() == 10,
            names@.len() == 10,
            text::views(names@) == required_names(precision),
            text::views(missing@) == absent(probes@) + bare_graphs(
                precision,
                probes@,
                listing@,
                i as int,
            ),
    {
        let graph = names[i].as_str();
        assert(graph@ == text::views(names@)[i as int]);
        assert(graph@ == required_graphs(precision)[i as int]);
        if probes[i].exists && !split_data_sidecars_present(graph, listing) {
            let ghost before = missing@;
            let mut notice = text::concat(
                probes[i].display.as_str(),
                " external data sidecar(s): expected ",
            );
            notice.append(graph);
            notice.append("_data*");
            missing.push(notice);
            assert(text::views(missing@) =~= text::views(before).push(notice@));
            assert(text::views(missing@) =~= absent(probes@) + bare_graphs(
                precision,
                probes@,
                listing@,
                i + 1,
            ));
        }
    }
    if missing.len() == 0 {
        assert(text::views(missing@).len() == 0);
        Ok(())
    } else {
        assert(text::views(missing@).len() > 0);
        Err(NodeError::IncompleteBundle(missing))
    }
}

proof fn absent_of_existing(probes: Seq<FileProbe>)
    ensures
        absent(probes).len() == 0 <==> forall|i: int|
            0 <= i < probes.len() ==> (#[trigger] probes[i]).exists,
    decreases probes.len(),
{
    if probes.len() > 0 {
        let rest = probes.drop_last();
        absent_of_existing(rest);
        if absent(probes).len() == 0 {
            assert forall|i: int| 0 <= i < probes.len() implies (#[trigger] probes[i]).exists by {
                if i < rest.len() {
                    assert(rest[i].exists);
                }
            }
        } else if forall|i: int| 0 <= i < probes.len() ==> (#[trigger] probes[i]).exists {
            assert forall|i: int| 0 <= i < rest.len() implies (#[trigger] rest[i]).exists by {
                assert(probes[i].exists);
            }
        }
    }
}

proof fn bare_of_accompanied(
    precision: LFM25AudioPrecision,
    probes: Seq<FileProbe>,
    listing: Seq<String>,
    graphs: int,
)
    ensures
        bare_graphs(precision, probes, listing, graphs).len() == 0 <==> forall|i: int|
            0 <= i < graphs ==> !#[trigger] lacks_sidecar(precision, probes, listing, i),
    decreases graphs,
{
    if graphs > 0 {
        bare_of_accompanied(precision, probes, listing, graphs - 1);
        assert(lacks_sidecar(precision, probes, listing, graphs - 1) ==> bare_graphs(
            precision,
            probes,
            listing,
            graphs,
        ).len() > 0);
    }
}

/// A bundle is complete exactly when every required file exists and every
/// required graph has external data beside it.
pub proof fn complete_bundle(
    precision: LFM25AudioPrecision,
    probes: Seq<FileProbe>,
    listing: Seq<String>,
)
    requires
        probes.len() == required_names(precision).len(),
    ensures
        lacking(precision, probes, listing).len() == 0 <==> {
            &&& forall|i: int| 0 <= i < probes.len() ==> (#[trigger] probes[i]).exists
            &&& forall|i: int|
                0 <= i < 5 ==> has_sidecar(listing, #[trigger] required_graphs(precision)[i])
        },
{
    absent_of_existing(probes);
    bare_of_accompanied(precision, probes, listing, 5);
    if lacking(precision, probes, listing).len() == 0 {
        assert forall|i: int| 0 <= i < 5 implies has_sidecar(
            listing,
            #[trigger] required_graphs(precision)[i],
        ) by {
            assert(!lacks_sidecar(precision, probes, listing, i));
            assert(probes[i].exists);
        }
    } else if (forall|i: int| 0 <= i < probes.len() ==> (#[trigger] probes[i]).exists) && (forall|
        i: int,
    |
        0 <= i < 5 ==> has_sidecar(listing, #[trigger] required_graphs(precision)[i])) {
        assert forall|i: int| 0 <= i < 5 implies !#[trigger] lacks_sidecar(
            precision,
            probes,
            listing,
            i,
        ) by {
            assert(has_sidecar(listing, required_graphs(precision)[i]));
        }
    }
}

/// Names of the graphs that a bundle may have besides.
#[derive(Debug)]
pub struct OptionalGraphs {
    pub decoder_argmax: String,
    pub depthformer_unrolled: String,
    pub depthformer_unrolled_sample: String,
    pub depthformer_argmax: String,
    pub istft: String,
}

/// Precision of the depthformer.
pub open spec fn depthformer_precision(config: &LFM25AudioOnnxConfig) -> LFM25AudioPrecision {
    match config.depthformer_precision {
        Some(precision) => precision,
        None => config.precision,
    }
}

fn precision_of_depthformer(config: &LFM25AudioOnnxConfig) -> (precision: LFM25AudioPrecision)
    ensures
        precision == depthformer_precision(config),
{
    match config.depthformer_precision {
        Some(precision) => precision,
        None => config.precision,
    }
}

/// Whether `names` are those of the graphs that a bundle may have besides.
pub open spec fn are_optional(config: &LFM25AudioOnnxConfig, names: OptionalGraphs) -> bool {
    let depthformer = "vocoder_depthformer"@;
    let precision = depthformer_precision(config);
    &&& names.decoder_argmax@ == graph_file("decoder"@, config.precision, "_argmax"@)
    &&& names.depthformer_unrolled@ == graph_file(depthformer, precision, "_unrolled"@)
    &&& names.depthformer_unrolled_sample@ == graph_file(
        depthformer,
        precision,
        "_unrolled_sample"@,
    )
    &&& names.depthformer_argmax@ == graph_file(depthformer, precision, "_argmax"@)
    &&& names.istft@ == "audio_istft.onnx"@
}

/// Names the graphs that a bundle may have besides.
pub fn optional_graphs(config: &LFM25AudioOnnxConfig) -> (names: OptionalGraphs)
    ensures
        are_optional(config, names),
        names.decoder_argmax@ == graph_file("decoder"@, config.precision, "_argmax"@),
        names.depthformer_unrolled@ == graph_file(
            "vocoder_depthformer"@,
            depthformer_precision(config),
            "_unrolled"@,
        ),
        names.depthformer_unrolled_sample@ == graph_file(
            "vocoder_depthformer"@,
            depthformer_precision(config),
            "_unrolled_sample"@,
        ),
        names.depthformer_argmax@ == graph_file(
            "vocoder_depthformer"@,
            depthformer_precision(config),
            "_argmax"@,
        ),
        names.istft@ == "audio_istft.onnx"@,
{
    let precision = precision_of_depthformer(config);
    OptionalGraphs {
        decoder_argmax: graph_name("decoder", config.precision, "_argmax"),
        depthformer_unrolled: graph_name("vocoder_depthformer", precision, "_unrolled"),
        depthformer_unrolled_sample: graph_name(
            "vocoder_depthformer",
            precision,
            "_unrolled_sample",
        ),
        depthformer_argmax: graph_name("vocoder_depthformer", precision, "_argmax"),
        istft: "audio_istft.onnx".to_string(),
    }
}

/// Which of the optional graphs exist.
#[derive(Debug, Clone, Copy, PartialEq, Eq, Structural)]
pub struct GraphProbe {
    pub decoder_argmax: bool,
    pub depthformer_unrolled: bool,
    pub depthformer_unrolled_sample: bool,
    pub depthformer_argmax: bool,
    pub istft: bool,
}

/// Switches set in the environment.
#[derive(Debug, Clone, Copy, PartialEq, Eq, Structural)]
pub struct EnvSwitches {
    pub disable_text_sampling: bool,
    pub disable_decoder_argmax: bool,
    pub disable_audio_sampling: bool,
}

/// The graphs to load, and how those that come in variants are used.
#[derive(Debug)]
pub struct GraphPlan {
    pub decoder: String,
    /// Whether the decoder picks the token itself.
    pub decoder_token_output: bool,
    pub audio_embedding: String,
    pub audio_encoder: String,
    pub audio_detokenizer: String,
    pub istft: Option<String>,
    pub depthformer: String,
    /// Whether the depthformer yields all codes in one run.
    pub depthformer_unrolled: bool,
    /// Whether the depthformer picks each code itself.
    pub depthformer_token_output: bool,
    pub device: String,
    pub depthformer_device: String,
}

/// Whether text tokens are sampled.
pub open spec fn samples_text(config: &LFM25AudioOnnxConfig, switches: EnvSwitches) -> bool {
    config.text_temperature.positive() && !switches.disable_text_sampling
}

/// Whether audio codes are sampled.
pub open spec fn samples_audio(config: &LFM25AudioOnnxConfig, switches: EnvSwitches) -> bool {
    config.audio_temperature.positive() && !switches.disable_audio_sampling
}

/// Whether the decoder that picks the token itself is used.
pub open spec fn decoder_picks(
    config: &LFM25AudioOnnxConfig,
    probe: GraphProbe,
    switches: EnvSwitches,
) -> bool {
    probe.decoder_argmax && !samples_text(config, switches) && !switches.disable_decoder_argmax
}

/// Which variant of the depthformer is used.
pub open spec fn depthformer_variant(
    config: &LFM25AudioOnnxConfig,
    probe: GraphProbe,
    switches: EnvSwitches,
) -> Seq<char> {
    if samples_audio(config, switches) {
        if config.use_unrolled_depthformer && probe.depthformer_unrolled_sample {
            "_unrolled_sample"@
        } else {
            ""@
        }
    } else if config.use_unrolled_depthformer && probe.depthformer_unrolled {
        "_unrolled"@
    } else if probe.depthformer_argmax {
        "_argmax"@
    } else {
        ""@
    }
}

/// Whether the depthformer in use yields all codes in one run.
pub open spec fn depthformer_unrolls(
    config: &LFM25AudioOnnxConfig,
    probe: GraphProbe,
    switches: EnvSwitches,
) -> bool {
    config.use_unrolled_depthformer && if samples_audio(config, switches) {
        probe.depthformer_unrolled_sample
    } else {
        probe.depthformer_unrolled
    }
}

/// Whether the depthformer in use picks each code itself.
pub open spec fn depthformer_picks(
    config: &LFM25AudioOnnxConfig,
    probe: GraphProbe,
    switches: EnvSwitches,
) -> bool {
    &&& !samples_audio(config, switches)
    &&& !depthformer_unrolls(config, probe, switches)
    &&& probe.depthformer_argmax
}

/// Whether `plan` is the choice of the graphs to load.
pub open spec fn is_plan(
    config: &LFM25AudioOnnxConfig,
    probe: GraphProbe,
    switches: EnvSwitches,
    plan: GraphPlan,
) -> bool {
    &&& plan.decoder@ == graph_file(
        "decoder"@,
        config.precision,
        if decoder_picks(config, probe, switches) {
            "_argmax"@
        } else {
            ""@
        },
    )
    &&& plan.decoder_token_output == decoder_picks(config, probe, switches)
    &&& plan.audio_embedding@ == graph_file("audio_embedding"@, config.precision, ""@)
    &&& plan.audio_encoder@ == graph_file("audio_encoder"@, config.precision, ""@)
    &&& plan.audio_detokenizer@ == graph_file("audio_detokenizer"@, config.precision, ""@)
    &&& plan.istft is Some <==> probe.istft
    &&& plan.istft matches Some(name) ==> name@ == "audio_istft.onnx"@
    &&& plan.depthformer@ == graph_file(
        "vocoder_depthformer"@,
        depthformer_precision(config),
        depthformer_variant(config, probe, switches),
    )
    &&& plan.depthformer_unrolled == depthformer_unrolls(config, probe, switches)
    &&& plan.depthformer_token_output == depthformer_picks(config, probe, switches)
    &&& plan.device@ == config.device@
    &&& plan.depthformer_device@ == match config.depthformer_device {
        Some(device) => device@,
        None => config.device@,
    }
}

/// Chooses the graphs to load.
pub fn plan_graphs(config: &LFM25AudioOnnxConfig, probe: GraphProbe, switches: EnvSwitches) -> (plan:
    GraphPlan)
    ensures
        is_plan(config, probe, switches, plan),
        plan.decoder@ == graph_file(
            "decoder"@,
            config.precision,
            if decoder_picks(config, probe, switches) {
                "_argmax"@
            } else {
                ""@
            },
        ),
        plan.decoder_token_output == decoder_picks(config, probe, switches),
        plan.audio_embedding@ == graph_file("audio_embedding"@, config.precision, ""@),
        plan.audio_encoder@ == graph_file("audio_encoder"@, config.precision, ""@),
        plan.audio_detokenizer@ == graph_file("audio_detokenizer"@, config.precision, ""@),
        plan.istft is Some <==> probe.istft,
        plan.istft matches Some(name) ==> name@ == "audio_istft.onnx"@,
        plan.depthformer@ == graph_file(
            "vocoder_depthformer"@,
            depthformer_precision(config),
            depthformer_variant(config, probe, switches),
        ),
        plan.depthformer_unrolled == depthformer_unrolls(config, probe, switches),
        plan.depthformer_token_output == depthformer_picks(config, probe, switches),
        plan.device@ == config.device@,
        plan.depthformer_device@ == match config.depthformer_device {
            Some(device) => device@,
            None => config.device@,
        },
{
    let names = optional_graphs(config);
    let text_sampling: bool = config.text_temperature.is_positive()
        && !switches.disable_text_sampling;
    let audio_sampling: bool = config.audio_temperature.is_positive()
        && !switches.disable_audio_sampling;
    let decoder_token_output: bool = probe.decoder_argmax && !text_sampling
        && !switches.disable_decoder_argmax;
    let unrolled_sample: bool = audio_sampling && config.use_unrolled_depthformer
        && probe.depthformer_unrolled_sample;
    let depthformer_unrolled: bool = (!audio_sampling && config.use_unrolled_depthformer
        && probe.depthformer_unrolled) || unrolled_sample;
    let depthformer_token_output: bool = !depthformer_unrolled && !audio_sampling
        && probe.depthformer_argmax;
    let decoder = if decoder_token_output {
        names.decoder_argmax
    } else {
        graph_name("decoder", config.precision, "")
    };
    let depthformer = if unrolled_sample {
        names.depthformer_unrolled_sample
    } else if depthformer_unrolled {
        names.depthformer_unrolled
    } else if depthformer_token_output {
        names.depthformer_argmax
    } else {
        graph_name("vocoder_depthformer", precision_of_depthformer(config), "")
    };
    let depthformer_device = match &config.depthformer_device {
        Some(device) => device.clone(),
        None => config.device.clone(),
    };
    GraphPlan {
        decoder,
        decoder_token_output,
        audio_embedding: graph_name("audio_embedding", config.precision, ""),
        audio_encoder: graph_name("audio_encoder", config.precision, ""),
        audio_detokenizer: graph_name("audio_detokenizer", config.precision, ""),
        istft: if probe.istft {
            Some(names.istft)
        } else {
            None
        },
        depthformer,
        depthformer_unrolled,
        depthformer_token_output,
        device: config.device.clone(),
        depthformer_device,
    }
}

/// Where codes are to be sampled no graph that takes the most likely one is
/// used, the unrolled variants are used only where they are wanted, and a
/// depthformer never both unrolls and picks code by code.
pub proof fn plan_respects_sampling(
    config: &LFM25AudioOnnxConfig,
    probe: GraphProbe,
    switches: EnvSwitches,
)
    ensures
        samples_text(config, switches) ==> !decoder_picks(config, probe, switches),
        samples_audio(config, switches) ==> !depthformer_picks(config, probe, switches),
        samples_audio(config, switches) ==> depthformer_variant(config, probe, switches)
            == "_unrolled_sample"@ || depthformer_variant(config, probe, switches) == ""@,
        !config.use_unrolled_depthformer ==> !depthformer_unrolls(config, probe, switches),
        !(depthformer_unrolls(config, probe, switches) && depthformer_picks(
            config,
            probe,
            switches,
        )),
{
}

/// No variant of a graph is chosen that does not exist.
pub proof fn plan_uses_graphs_that_exist(
    config: &LFM25AudioOnnxConfig,
    probe: GraphProbe,
    switches: EnvSwitches,
)
    ensures
        decoder_picks(config, probe, switches) ==> probe.decoder_argmax,
        ({
            let variant = depthformer_variant(config, probe, switches);
            &&& variant == "_unrolled_sample"@ ==> probe.depthformer_unrolled_sample
            &&& variant == "_unrolled"@ ==> probe.depthformer_unrolled
            &&& variant == "_argmax"@ ==> probe.depthformer_argmax
            &&& depthformer_unrolls(config, probe, switches) <==> variant == "_unrolled_sample"@
                || variant == "_unrolled"@
            &&& depthformer_picks(config, probe, switches) <==> variant == "_argmax"@
        }),
{
    reveal_strlit("_unrolled_sample");
    reveal_strlit("_unrolled");
    reveal_strlit("_argmax");
    reveal_strlit("");
    assert("_unrolled_sample"@.len() == 16);
    assert("_unrolled"@.len() == 9);
    assert("_argmax"@.len() == 7);
    assert(""@.len() == 0);
}

/// The file of a graph is its name, the suffix of the precision, what tells the
/// variant apart, and `.onnx`.
pub proof fn graphs_are_named_by_precision(stem: Seq<char>, variant: Seq<char>)
    ensures
        graph_file(stem, LFM25AudioPrecision::Q4, variant) == stem + "_q4"@ + variant + ".onnx"@,
        graph_file(stem, LFM25AudioPrecision::Fp16, variant) == stem + "_fp16"@ + variant
            + ".onnx"@,
        graph_file(stem, LFM25AudioPrecision::Fp32, variant) == stem + variant + ".onnx"@,
{
    reveal_strlit("");
    assert(graph_file(stem, LFM25AudioPrecision::Fp32, variant) =~= stem + variant + ".onnx"@);
}

/// The ten files that every bundle has: five graphs of its precision, the two
/// embedding tables with their shapes, and the settings of the front end.
pub proof fn bundle_has_ten_files(precision: LFM25AudioPrecision)
    ensures
        required_graphs(precision).len() == 5,
        required_names(precision).len() == 10,
        ({
            let names = required_names(precision);
            let suffix = precision.suffix_text();
            &&& names[0] == "decoder"@ + suffix + ".onnx"@
            &&& names[1] == "audio_encoder"@ + suffix + ".onnx"@
            &&& names[2] == "audio_embedding"@ + suffix + ".onnx"@
            &&& names[3] == "audio_detokenizer"@ + suffix + ".onnx"@
            &&& names[4] == "vocoder_depthformer"@ + suffix + ".onnx"@
            &&& names[5] == "embed_tokens.bin"@
            &&& names[6] == "embed_tokens.json"@
            &&& names[7] == "audio_embedding.bin"@
            &&& names[8] == "audio_embedding.json"@
            &&& names[9] == "mel_config.json"@
            &&& forall|i: int| 0 <= i < 5 ==> #[trigger] required_graphs(precision)[i] == names[i]
        }),
{
    reveal_strlit("");
    let names = required_names(precision);
    let suffix = precision.suffix_text();
    assert(names[0] =~= "decoder"@ + suffix + ".onnx"@);
    assert(names[1] =~= "audio_encoder"@ + suffix + ".onnx"@);
    assert(names[2] =~= "audio_embedding"@ + suffix + ".onnx"@);
    assert(names[3] =~= "audio_detokenizer"@ + suffix + ".onnx"@);
    assert(names[4] =~= "vocoder_depthformer"@ + suffix + ".onnx"@);
}

/// External data of a graph stands in a file called like the graph with `_data`
/// behind it, or in several with `_data_` and anything more, and in no other.
pub proof fn external_data_is_named_after_its_graph(
    entry: Seq<char>,
    graph: Seq<char>,
    rest: Seq<char>,
)
    ensures
        is_sidecar(graph + "_data"@, graph),
        is_sidecar(graph + "_data_"@ + rest, graph),
        is_sidecar(entry, graph) && entry != graph + "_data"@ ==> exists|more: Seq<char>|
            entry == #[trigger] (graph + "_data_"@ + more),
{
    reveal_strlit("_data");
    reveal_strlit("_");
    reveal_strlit("_data_");
    let part = graph + "_data"@ + "_"@;
    assert(part =~= graph + "_data_"@);
    let longer = graph + "_data_"@ + rest;
    assert(longer.take(part.len() as int) =~= part);
    if text::has_prefix(entry, part) {
        let more = entry.skip(part.len() as int);
        assert(entry =~= entry.take(part.len() as int) + more);
        assert(entry =~= graph + "_data_"@ + more);
    }
}

/// What is said of a bundle is all that it lacks and nothing else: first every
/// file that is not there, in the order of the files, and then every graph that
/// is there without its data.
pub proof fn everything_missing_is_said(
    precision: LFM25AudioPrecision,
    probes: Seq<FileProbe>,
    listing: Seq<String>,
    at: int,
)
    requires
        probes.len() == 10,
        0 <= at < 10,
    ensures
        !probes[at].exists ==> lacking(precision, probes, listing).contains(probes[at].display@),
        at < 5 && probes[at].exists && !has_sidecar(listing, required_graphs(precision)[at])
            ==> lacking(precision, probes, listing).contains(
            probes[at].display@ + " external data sidecar(s): expected "@ + required_graphs(
                precision,
            )[at] + "_data*"@,
        ),
        forall|i: int|
            0 <= i < absent(probes).len() ==> #[trigger] lacking(precision, probes, listing)[i]
                == absent(probes)[i],
{
    let missing = absent(probes);
    let bare = bare_graphs(precision, probes, listing, 5);
    let all = lacking(precision, probes, listing);
    if !probes[at].exists {
        let i = absent_names(probes, at);
        assert(all[i] == probes[at].display@);
    }
    if at < 5 && probes[at].exists && !has_sidecar(listing, required_graphs(precision)[at]) {
        let i = bare_names(precision, probes, listing, 5, at);
        assert(all[missing.len() + i] == bare[i]);
    }
}

proof fn absent_names(probes: Seq<FileProbe>, at: int) -> (i: int)
    requires
        0 <= at < probes.len(),
        !probes[at].exists,
    ensures
        0 <= i < absent(probes).len(),
        absent(probes)[i] == probes[at].display@,
    decreases probes.len(),
{
    if at == probes.len() - 1 {
        absent(probes).len() - 1
    } else {
        assert(probes.drop_last()[at] == probes[at]);
        absent_names(probes.drop_last(), at)
    }
}

proof fn bare_names(
    precision: LFM25AudioPrecision,
    probes: Seq<FileProbe>,
    listing: Seq<String>,
    graphs: int,
    at: int,
) -> (i: int)
    requires
        0 <= at < graphs,
        probes[at].exists,
        !has_sidecar(listing, required_graphs(precision)[at]),
    ensures
        0 <= i < bare_graphs(precision, probes, listing, graphs).len(),
        bare_graphs(precision, probes, listing, graphs)[i] == probes[at].display@
            + " external data sidecar(s): expected "@ + required_graphs(precision)[at] + "_data*"@,
    decreases graphs,
{
    if at == graphs - 1 {
        bare_graphs(precision, probes, listing, graphs).len() - 1
    } else {
        bare_names(precision, probes, listing, graphs - 1, at)
    }
}

/// When tokens and codes are sampled: at a temperature above zero, unless the
/// environment says otherwise. Then no graph is used that picks the most likely
/// one; otherwise one is wherever it exists, but for a decoder that the
/// environment rules out.
pub proof fn sampling_decides_on_the_graphs(
    config: &LFM25AudioOnnxConfig,
    probe: GraphProbe,
    switches: EnvSwitches,
)
    ensures
        samples_text(config, switches) <==> 0 < config.text_temperature.bits <= 0x7f80_0000
            && !switches.disable_text_sampling,
        samples_audio(config, switches) <==> 0 < config.audio_temperature.bits <= 0x7f80_0000
            && !switches.disable_audio_sampling,
        decoder_picks(config, probe, switches) <==> probe.decoder_argmax && !samples_text(
            config,
            switches,
        ) && !switches.disable_decoder_argmax,
        ({
            let variant = depthformer_variant(config, probe, switches);
            let sampled = samples_audio(config, switches);
            let unrolled = config.use_unrolled_depthformer;
            &&& sampled && unrolled && probe.depthformer_unrolled_sample ==> variant
                == "_unrolled_sample"@
            &&& sampled && !(unrolled && probe.depthformer_unrolled_sample) ==> variant == ""@
            &&& !sampled && unrolled && probe.depthformer_unrolled ==> variant == "_unrolled"@
            &&& !sampled && !(unrolled && probe.depthformer_unrolled) && probe.depthformer_argmax
                ==> variant == "_argmax"@
            &&& !sampled && !(unrolled && probe.depthformer_unrolled) && !probe.depthformer_argmax
                ==> variant == ""@
            &&& depthformer_unrolls(config, probe, switches) <==> unrolled && (sampled
                && probe.depthformer_unrolled_sample || !sampled && probe.depthformer_unrolled)
            &&& depthformer_picks(config, probe, switches) <==> !sampled && !(unrolled
                && probe.depthformer_unrolled) && probe.depthformer_argmax
        }),
        config.depthformer_precision matches Some(precision) ==> depthformer_precision(config)
            == precision,
        config.depthformer_precision is None ==> depthformer_precision(config) == config.precision,
{
}

/// Nothing is said to be missing that is there.
pub proof fn nothing_else_is_said(
    precision: LFM25AudioPrecision,
    probes: Seq<FileProbe>,
    listing: Seq<String>,
    i: int,
) -> (at: int)
    requires
        probes.len() == 10,
        0 <= i < lacking(precision, probes, listing).len(),
    ensures
        0 <= at < 10,
        ({
            let said = lacking(precision, probes, listing)[i];
            ||| !probes[at].exists && said == probes[at].display@
            ||| {
                &&& at < 5
                &&& probes[at].exists
                &&& !has_sidecar(listing, required_graphs(precision)[at])
                &&& said == probes[at].display@ + " external data sidecar(s): expected "@
                    + required_graphs(precision)[at] + "_data*"@
            }
        }),
{
    let missing = absent(probes);
    if i < missing.len() {
        absent_file(probes, i)
    } else {
        bare_graph(precision, probes, listing, 5, i - missing.len())
    }
}

proof fn absent_file(probes: Seq<FileProbe>, i: int) -> (at: int)
    requires
        0 <= i < absent(probes).len(),
    ensures
        0 <= at < probes.len(),
        !probes[at].exists,
        absent(probes)[i] == probes[at].display@,
    decreases probes.len(),
{
    let rest = probes.drop_last();
    if i < absent(rest).len() {
        let at = absent_file(rest, i);
        assert(rest[at] == probes[at]);
        at
    } else {
        probes.len() - 1
    }
}

proof fn bare_graph(
    precision: LFM25AudioPrecision,
    probes: Seq<FileProbe>,
    listing: Seq<String>,
    graphs: int,
    i: int,
) -> (at: int)
    requires
        0 <= i < bare_graphs(precision, probes, listing, graphs).len(),
    ensures
        0 <= at < graphs,
        probes[at].exists,
        !has_sidecar(listing, required_graphs(precision)[at]),
        bare_graphs(precision, probes, listing, graphs)[i] == probes[at].display@
            + " external data sidecar(s): expected "@ + required_graphs(precision)[at] + "_data*"@,
    decreases graphs,
{
    let earlier = bare_graphs(precision, probes, listing, graphs - 1);
    if i < earlier.len() {
        bare_graph(precision, probes, listing, graphs - 1, i)
    } else {
        graphs - 1
    }
}

/// The graphs of a plan are files of the bundle: the three that come in no
/// variant are those that every bundle has, the decoder and the depthformer are
/// theirs or, where a variant is used, the optional one of that variant, and all
/// run on the configured device, but for a depthformer that has its own.
pub proof fn plan_names_files_of_the_bundle(
    config: &LFM25AudioOnnxConfig,
    probe: GraphProbe,
    switches: EnvSwitches,
    names: OptionalGraphs,
    plan: GraphPlan,
)
    requires
        is_plan(config, probe, switches, plan),
        are_optional(config, names),
    ensures
        ({
            let suffix = config.precision.suffix_text();
            let own = (match config.depthformer_precision {
                Some(precision) => precision,
                None => config.precision,
            }).suffix_text();
            let text_sampled = 0 < config.text_temperature.bits <= 0x7f80_0000
                && !switches.disable_text_sampling;
            let audio_sampled = 0 < config.audio_temperature.bits <= 0x7f80_0000
                && !switches.disable_audio_sampling;
            let picks = probe.decoder_argmax && !text_sampled && !switches.disable_decoder_argmax;
            let sampling = config.use_unrolled_depthformer && audio_sampled
                && probe.depthformer_unrolled_sample;
            let unrolled = config.use_unrolled_depthformer && !audio_sampled
                && probe.depthformer_unrolled;
            let picking = !audio_sampled && !unrolled && probe.depthformer_argmax;
            &&& names.decoder_argmax@ == "decoder"@ + suffix + "_argmax"@ + ".onnx"@
            &&& names.depthformer_unrolled@ == "vocoder_depthformer"@ + own + "_unrolled"@
                + ".onnx"@
            &&& names.depthformer_unrolled_sample@ == "vocoder_depthformer"@ + own
                + "_unrolled_sample"@ + ".onnx"@
            &&& names.depthformer_argmax@ == "vocoder_depthformer"@ + own + "_argmax"@ + ".onnx"@
            &&& names.istft@ == "audio_istft.onnx"@
            &&& plan.audio_embedding@ == "audio_embedding"@ + suffix + ".onnx"@
            &&& plan.audio_encoder@ == "audio_encoder"@ + suffix + ".onnx"@
            &&& plan.audio_detokenizer@ == "audio_detokenizer"@ + suffix + ".onnx"@
            &&& plan.decoder_token_output <==> picks
            &&& picks ==> plan.decoder@ == names.decoder_argmax@
            &&& !picks ==> plan.decoder@ == "decoder"@ + suffix + ".onnx"@
            &&& plan.depthformer_unrolled <==> sampling || unrolled
            &&& plan.depthformer_token_output <==> picking
            &&& sampling ==> plan.depthformer@ == names.depthformer_unrolled_sample@
            &&& unrolled ==> plan.depthformer@ == names.depthformer_unrolled@
            &&& picking ==> plan.depthformer@ == names.depthformer_argmax@
            &&& !sampling && !unrolled && !picking ==> plan.depthformer@
                == "vocoder_depthformer"@ + own + ".onnx"@
            &&& probe.istft ==> (plan.istft matches Some(name) && name@ == names.istft@)
            &&& !probe.istft ==> plan.istft is None
            &&& plan.device@ == config.device@
            &&& config.depthformer_device matches Some(device) ==> plan.depthformer_device@
                == device@
            &&& config.depthformer_device is None ==> plan.depthformer_device@ == config.device@
        }),
{
    reveal_strlit("");
    let suffix = config.precision.suffix_text();
    let own = depthformer_precision(config).suffix_text();
    assert("decoder"@ + suffix + ""@ + ".onnx"@ =~= "decoder"@ + suffix + ".onnx"@);
    assert("audio_embedding"@ + suffix + ""@ + ".onnx"@ =~= "audio_embedding"@ + suffix
        + ".onnx"@);
    assert("audio_encoder"@ + suffix + ""@ + ".onnx"@ =~= "audio_encoder"@ + suffix + ".onnx"@);
    assert("audio_detokenizer"@ + suffix + ""@ + ".onnx"@ =~= "audio_detokenizer"@ + suffix
        + ".onnx"@);
    assert("vocoder_depthformer"@ + own + ""@ + ".onnx"@ =~= "vocoder_depthformer"@ + own
        + ".onnx"@);
}

} // verus!
