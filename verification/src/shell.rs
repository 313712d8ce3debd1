//! The command line handed to the window manager's `exec`: a working
//! directory, environment assignments and the command itself, quoted for a
//! POSIX shell.
use crate::text::chars_of;
use vstd::prelude::*;
use vstd::string::StringExecFns;

verus! {

/// Text as contracts see it.
pub type Text = Seq<char>;

/// One environment assignment as contracts see it: the name and the value.
pub type Binding = (Seq<char>, Seq<char>);

/// `s` with every single quote replaced by `'"'"'`: the quote that closes the
/// quoted word, a quoted single quote, and the quote that opens it again.
pub open spec fn escaped(s: Text) -> Text
    decreases s.len(),
{
    if s.len() == 0 {
        Seq::empty()
    } else if s.last() == '\'' {
        escaped(s.drop_last()) + "'\"'\"'"@
    } else {
        escaped(s.drop_last()).push(s.last())
    }
}

/// `s` as one single-quoted shell word.
pub open spec fn quoted(s: Text) -> Text {
    seq!['\''] + escaped(s) + seq!['\'']
}

/// One assignment, ready to stand before a command: `NAME='value' `.
pub open spec fn assignment(b: Binding) -> Text {
    b.0 + seq!['='] + quoted(b.1) + seq![' ']
}

/// The assignments of one layer, in the layer's order.
pub open spec fn layer_text(layer: Seq<Binding>) -> Text
    decreases layer.len(),
{
    if layer.len() == 0 {
        Seq::empty()
    } else {
        layer_text(layer.drop_last()) + assignment(layer.last())
    }
}

/// The assignments of all layers, earlier layers first, so that a later layer
/// wins where two layers assign the same name.
pub open spec fn layers_text(layers: Seq<Seq<Binding>>) -> Text
    decreases layers.len(),
{
    if layers.len() == 0 {
        Seq::empty()
    } else {
        layers_text(layers.drop_last()) + layer_text(layers.last())
    }
}

/// Whether no name is assigned twice, as in a map from names to values.
pub open spec fn distinct_names(layer: Seq<Binding>) -> bool {
    forall|i: int, j: int| 0 <= i < j < layer.len() ==> layer[i].0 != layer[j].0
}

/// Whether no name is assigned twice in `layer`.
pub fn has_distinct_names(layer: &Vec<(String, String)>) -> (b: bool)
    ensures
        b == distinct_names(layer.deep_view()),
{
    let ghost model = layer.deep_view();
    let mut j: usize = 0;
    while j < layer.len()
        invariant
            j <= layer.len(),
            model == layer.deep_view(),
            forall|a: int, b: int| 0 <= a < b < j ==> model[a].0 != model[b].0,
        decreases layer.len() - j,
    {
        let mut i: usize = 0;
        while i < j
            invariant
                i <= j < layer.len(),
                model == layer.deep_view(),
                forall|a: int| 0 <= a < i ==> model[a].0 != model[j as int].0,
            decreases j - i,
        {
            if layer[i].0 == layer[j].0 {
                assert(model[i as int].0 == model[j as int].0);
                return false;
            }
            i += 1;
        }
        j += 1;
    }
    true
}

/// The change of directory that precedes the command, if a directory is given.
pub open spec fn cwd_text(cwd: Option<Text>) -> Text {
    match cwd {
        Some(dir) => "cd "@ + quoted(dir) + " && "@,
        None => Seq::empty(),
    }
}

/// The whole command line.
pub open spec fn exec_command(base: Text, cwd: Option<Text>, layers: Seq<Seq<Binding>>) -> Text {
    cwd_text(cwd) + layers_text(layers) + base
}

/// Appends `raw` to `out` as one single-quoted shell word.
pub fn push_quoted(out: &mut String, raw: &str)
    ensures
        final(out)@ == old(out)@ + quoted(raw@),
{
    let v = chars_of(raw);
    out.push('\'');
    let ghost opened = out@;
    let mut i: usize = 0;
    while i < v.len()
        invariant
            i <= v.len(),
            out@ == opened + escaped(v@.take(i as int)),
        decreases v.len() - i,
    {
        let ghost before = v@.take(i as int);
        let ghost after = v@.take(i as int + 1);
        proof {
            assert(after.drop_last() =~= before);
            assert(after.last() == v@[i as int]);
        }
        if v[i] == '\'' {
            out.append("'\"'\"'");
            assert(out@ =~= opened + escaped(after));
        } else {
            out.push(v[i]);
            assert(out@ =~= opened + escaped(after));
        }
        i += 1;
    }
    assert(v@.take(v.len() as int) =~= v@);
    out.push('\'');
    assert(out@ =~= old(out)@ + quoted(raw@));
}

/// Quotes `raw` as one shell word: wrapped in single quotes, with every
/// embedded single quote escaped.
pub fn shell_escape(raw: &str) -> (out: String)
    ensures
        out@ == quoted(raw@),
{
    let mut out = String::new();
    push_quoted(&mut out, raw);
    assert(out@ =~= quoted(raw@));
    out
}

fn push_layer(out: &mut String, layer: &Vec<(String, String)>)
    ensures
        final(out)@ == old(out)@ + layer_text(layer.deep_view()),
{
    let ghost model = layer.deep_view();
    let mut i: usize = 0;
    while i < layer.len()
        invariant
            i <= layer.len(),
            model == layer.deep_view(),
            out@ == old(out)@ + layer_text(model.take(i as int)),
        decreases layer.len() - i,
    {
        let ghost before = out@;
        let ghost done = model.take(i as int);
        let ghost next = model.take(i as int + 1);
        proof {
            assert(next.drop_last() =~= done);
            assert(next.last() == (layer@[i as int].0@, layer@[i as int].1@));
        }
        out.append(layer[i].0.as_str());
        out.push('=');
        push_quoted(out, layer[i].1.as_str());
        out.push(' ');
        assert(out@ =~= before + assignment(next.last()));
        assert(out@ =~= old(out)@ + layer_text(next));
        i += 1;
    }
    assert(model.take(layer.len() as int) =~= model);
}

/// Builds the command line for one launch: `cd` into `cwd` if there is one,
/// then the assignments of `env_layers` in order, then `base_cmd` unchanged.
pub fn build_exec_command(
    base_cmd: &str,
    cwd: Option<&str>,
    env_layers: &Vec<&Vec<(String, String)>>,
) -> (out: String)
    ensures
        out@ == exec_command(base_cmd@, cwd.deep_view(), env_layers.deep_view()),
{
    let mut out = String::new();
    if let Some(dir) = cwd {
        out.append("cd ");
        push_quoted(&mut out, dir);
        out.append(" && ");
    }
    assert(out@ =~= cwd_text(cwd.deep_view()));
    let ghost model = env_layers.deep_view();
    let ghost head = out@;
    let mut i: usize = 0;
    while i < env_layers.len()
        invariant
            i <= env_layers.len(),
            model == env_layers.deep_view(),
            out@ == head + layers_text(model.take(i as int)),
        decreases env_layers.len() - i,
    {
        let ghost next = model.take(i as int + 1);
        proof {
            assert(next.drop_last() =~= model.take(i as int));
            assert(next.last() == env_layers@[i as int].deep_view());
        }
        push_layer(&mut out, env_layers[i]);
        assert(out@ =~= head + layers_text(next));
        i += 1;
    }
    assert(model.take(env_layers.len() as int) =~= model);
    out.append(base_cmd);
    assert(out@ =~= exec_command(base_cmd@, cwd.deep_view(), env_layers.deep_view()));
    out
}

} // verus!
