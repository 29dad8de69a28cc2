//! The statistics in the Prometheus text format.

use vstd::prelude::*;
use crate::config::AppState;
use crate::stats::{Counts, StatsView};
use crate::text::{decimal, push_decimal};

verus! {

/// One counter line: `name value`, where `name` may carry labels.
pub open spec fn counter_line(name: Seq<char>, value: u64) -> Seq<char> {
    name + " "@ + decimal(value as nat) + "\n"@
}

/// The lines of the totals: for each counter its help, its type and its value.
pub open spec fn totals_text(total: Counts) -> Seq<char> {
    "# HELP crewride_requests_total Total number of requests\n"@
        + "# TYPE crewride_requests_total counter\n"@
        + "crewride_requests_total "@ + decimal(total.requests as nat) + "\n"@
        + "# HELP crewride_tokens_input_total Total input tokens\n"@
        + "# TYPE crewride_tokens_input_total counter\n"@
        + "crewride_tokens_input_total "@ + decimal(total.tokens_input as nat) + "\n"@
        + "# HELP crewride_tokens_output_total Total output tokens\n"@
        + "# TYPE crewride_tokens_output_total counter\n"@
        + "crewride_tokens_output_total "@ + decimal(total.tokens_output as nat) + "\n"@
        + "# HELP crewride_errors_total Total number of errors\n"@
        + "# TYPE crewride_errors_total counter\n"@
        + "crewride_errors_total "@ + decimal(total.errors as nat) + "\n"@
}

/// The four lines of one group labelled `label="name"`.
pub open spec fn group_text(label: Seq<char>, name: Seq<char>, c: Counts) -> Seq<char> {
    let tag = tag_text(label, name);
    counter_line("crewride_"@ + label + "_requests"@ + tag, c.requests)
        + counter_line("crewride_"@ + label + "_tokens_input"@ + tag, c.tokens_input)
        + counter_line("crewride_"@ + label + "_tokens_output"@ + tag, c.tokens_output)
        + counter_line("crewride_"@ + label + "_errors"@ + tag, c.errors)
}

/// The lines of all groups, in order.
pub open spec fn groups_text(label: Seq<char>, groups: Seq<(Seq<char>, Counts)>) -> Seq<char>
    decreases groups.len(),
{
    if groups.len() == 0 {
        Seq::empty()
    } else {
        groups_text(label, groups.drop_last()) + group_text(label, groups.last().0, groups.last().1)
    }
}

/// The whole text: the totals, then each provider, then each model.
pub open spec fn metrics_text(s: StatsView) -> Seq<char> {
    totals_text(s.total) + groups_text("provider"@, s.by_provider) + groups_text("model"@, s.by_model)
}

/// The labels of a group line: `{label="name"}`.
pub open spec fn tag_text(label: Seq<char>, name: Seq<char>) -> Seq<char> {
    "{"@ + label + "=\""@ + name + "\"}"@
}

fn push_labeled_counter(out: &mut String, label: &str, metric: &str, name: &str, value: u64)
    ensures
        final(out)@ == old(out)@ + counter_line("crewride_"@ + label@ + metric@ + tag_text(label@, name@), value),
{
    let ghost start = out@;
    out.append("crewride_");
    out.append(label);
    out.append(metric);
    out.append("{");
    out.append(label);
    out.append("=\"");
    out.append(name);
    out.append("\"}");
    out.append(" ");
    let ghost before_value = out@;
    push_decimal(out, value);
    out.append("\n");
    proof {
        assert(before_value =~= start + ("crewride_"@ + label@ + metric@ + tag_text(label@, name@)) + " "@);
        assert(out@ =~= start + counter_line("crewride_"@ + label@ + metric@ + tag_text(label@, name@), value));
    }
}

fn push_group(out: &mut String, label: &str, name: &str, c: &Counts)
    ensures
        final(out)@ == old(out)@ + group_text(label@, name@, *c),
{
    let ghost start = out@;
    push_labeled_counter(out, label, "_requests", name, c.requests);
    push_labeled_counter(out, label, "_tokens_input", name, c.tokens_input);
    push_labeled_counter(out, label, "_tokens_output", name, c.tokens_output);
    push_labeled_counter(out, label, "_errors", name, c.errors);
    proof {
        assert(out@ =~= start + group_text(label@, name@, *c));
    }
}

/// The statistics of `state` in the Prometheus text format: the totals, then
/// four lines per provider and four per model, in the order first seen.
pub fn prometheus_metrics(state: &AppState) -> (text: String)
    ensures
        text@ == metrics_text(state.stats@),
{
    let snapshot = state.stats.get_stats();
    let mut out = String::new();
    let o = snapshot.overall;
    out.append("# HELP crewride_requests_total Total number of requests\n");
    out.append("# TYPE crewride_requests_total counter\n");
    out.append("crewride_requests_total ");
    push_decimal(&mut out, o.total_requests);
    out.append("\n");
    out.append("# HELP crewride_tokens_input_total Total input tokens\n");
    out.append("# TYPE crewride_tokens_input_total counter\n");
    out.append("crewride_tokens_input_total ");
    push_decimal(&mut out, o.total_tokens_input);
    out.append("\n");
    out.append("# HELP crewride_tokens_output_total Total output tokens\n");
    out.append("# TYPE crewride_tokens_output_total counter\n");
    out.append("crewride_tokens_output_total ");
    push_decimal(&mut out, o.total_tokens_output);
    out.append("\n");
    out.append("# HELP crewride_errors_total Total number of errors\n");
    out.append("# TYPE crewride_errors_total counter\n");
    out.append("crewride_errors_total ");
    push_decimal(&mut out, o.total_errors);
    out.append("\n");
    proof {
        assert(out@ =~= totals_text(state.stats@.total));
    }
    let ghost head = out@;
    let providers = &snapshot.by_provider;
    let n = providers.len();
    let mut i: usize = 0;
    while i < n
        invariant
            n == providers.pairs().len(),
            providers.pairs() == crate::stats::provider_entries(state.stats@.by_provider),
            i <= n,
            out@ == head + groups_text("provider"@, state.stats@.by_provider.take(i as int)),
        decreases n - i,
    {
        let (name, ps) = providers.entry(i);
        let c = Counts { requests: ps.requests, tokens_input: ps.tokens_input, tokens_output: ps.tokens_output, errors: ps.errors };
        proof { assert(c == state.stats@.by_provider[i as int].1); }
        push_group(&mut out, "provider", name, &c);
        proof {
            assert(state.stats@.by_provider.take(i + 1).drop_last() =~= state.stats@.by_provider.take(i as int));
            assert(out@ =~= head + groups_text("provider"@, state.stats@.by_provider.take(i + 1)));
        }
        i += 1;
    }
    proof { assert(state.stats@.by_provider.take(n as int) =~= state.stats@.by_provider); }
    let ghost mid = out@;
    let models = &snapshot.by_model;
    let n = models.len();
    let mut i: usize = 0;
    while i < n
        invariant
            n == models.pairs().len(),
            models.pairs() == crate::stats::model_entries(state.stats@.by_model),
            i <= n,
            out@ == mid + groups_text("model"@, state.stats@.by_model.take(i as int)),
        decreases n - i,
    {
        let (name, ms) = models.entry(i);
        let c = Counts { requests: ms.requests, tokens_input: ms.tokens_input, tokens_output: ms.tokens_output, errors: ms.errors };
        proof { assert(c == state.stats@.by_model[i as int].1); }
        push_group(&mut out, "model", name, &c);
        proof {
            assert(state.stats@.by_model.take(i + 1).drop_last() =~= state.stats@.by_model.take(i as int));
            assert(out@ =~= mid + groups_text("model"@, state.stats@.by_model.take(i + 1)));
        }
        i += 1;
    }
    proof {
        assert(state.stats@.by_model.take(n as int) =~= state.stats@.by_model);
        assert(out@ =~= metrics_text(state.stats@));
    }
    out
}

} // verus!
