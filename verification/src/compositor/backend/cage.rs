//! cage: a compositor that runs one application, which fills the screen.
use vstd::prelude::*;
use crate::compositor::backend;
use crate::compositor::backend::{
    add_cursor_theme, detached_compositor_command, socket_wrapper_cmd, LaunchPlan, TargetUser,
};
use crate::text;

verus! {

/// A command with its arguments behind it.
pub open spec fn command_line(command: Seq<char>, args: Seq<Seq<char>>) -> Seq<char>
    decreases args.len(),
{
    if args.len() == 0 {
        command
    } else {
        command_line(command, args.drop_last()).push(' ') + args.last()
    }
}

fn command_with(command: &str, args: &[String]) -> (s: String)
    ensures
        s@ == command_line(command@, text::texts(args@)),
{
    let ghost all = text::texts(args@);
    let mut out = text::chars_of(command);
    let mut i: usize = 0;
    while i < args.len()
        invariant
            i <= args@.len(),
            all == text::texts(args@),
            out@ == command_line(command@, all.take(i as int)),
        decreases args@.len() - i,
    {
        proof {
            assert(all.take(i + 1).drop_last() == all.take(i as int));
            assert(all.take(i + 1).last() == args@[i as int]@);
        }
        out.push(' ');
        text::push_str(&mut out, args[i].as_str());
        i = i + 1;
    }
    assert(all.take(i as int) == all);
    text::text_of(&out)
}

/// Plans the start of cage with the application that it runs.
pub fn launch_detached(
    width: u32,
    height: u32,
    app_cmd: &str,
    app_args: &[String],
    run_as: Option<TargetUser>,
    audio_sink: Option<&str>,
    own_runtime_dir: Option<String>,
    own_uid: u32,
) -> (p: LaunchPlan)
    ensures
        p.program@ == "cage"@,
        text::texts(p.args@) == seq![
            "-d"@,
            "--"@,
            "sh"@,
            "-c"@,
            backend::announcing(command_line(app_cmd@, text::texts(app_args@))),
        ],
        backend::variables(p.set@) == backend::headless(width, height) + backend::sink_variable(
            match audio_sink {
                Some(s) => Some(s@),
                None => None,
            },
        ) + backend::user_variables(run_as) + backend::cursor_theme(),
        text::texts(p.unset@) == backend::inherited_desktop(),
        backend::child_steps(run_as, p.child_steps@),
        p.runtime_dir@ == backend::launch_runtime_dir(
            run_as,
            text::optional(own_runtime_dir),
            own_uid,
        ),
{
    let mut p = detached_compositor_command(
        "cage",
        width,
        height,
        run_as,
        audio_sink,
        own_runtime_dir,
        own_uid,
    );
    let inner = command_with(app_cmd, app_args);
    assert(text::texts(p.args@) == Seq::<Seq<char>>::empty());
    text::push_text(&mut p.args, "-d");
    text::push_text(&mut p.args, "--");
    text::push_text(&mut p.args, "sh");
    text::push_text(&mut p.args, "-c");
    text::push_text(&mut p.args, socket_wrapper_cmd(inner.as_str()).as_str());
    assert(text::texts(p.args@) == seq![
        "-d"@,
        "--"@,
        "sh"@,
        "-c"@,
        backend::announcing(command_line(app_cmd@, text::texts(app_args@))),
    ]);
    add_cursor_theme(&mut p);
    p
}

proof fn command_comes_first(command: Seq<char>, args: Seq<Seq<char>>)
    ensures
        command_line(command, args).len() >= command.len(),
        command_line(command, args).take(command.len() as int) == command,
    decreases args.len(),
{
    let line = command_line(command, args);
    if args.len() == 0 {
        assert(line.take(command.len() as int) =~= command);
    } else {
        command_comes_first(command, args.drop_last());
        let head = command_line(command, args.drop_last());
        assert(line.take(command.len() as int) =~= head.take(command.len() as int));
    }
}

/// One more argument stands behind what is run without it, after a space.
pub proof fn arguments_follow_the_command(
    width: u32,
    height: u32,
    cmd: &str,
    args: &[String],
    more: &[String],
    last: String,
    run_as: Option<TargetUser>,
    sink: Option<&str>,
    own_dir: Option<String>,
    own_uid: u32,
    p: LaunchPlan,
    q: LaunchPlan,
)
    requires
        call_ensures(
            launch_detached,
            (width, height, cmd, args, run_as, sink, own_dir, own_uid),
            p,
        ),
        call_ensures(
            launch_detached,
            (width, height, cmd, more, run_as, sink, own_dir, own_uid),
            q,
        ),
        more@ == args@.push(last),
    ensures
        q.args@[4]@ == p.args@[4]@ + seq![' '] + last@,
{
    let a = text::texts(p.args@);
    let b = text::texts(q.args@);
    assert(a.len() == p.args@.len() && b.len() == q.args@.len());
    assert(a[4] == p.args@[4]@ && b[4] == q.args@[4]@);
    let w = text::texts(args@);
    let m = text::texts(more@);
    assert(m.drop_last() =~= w);
    assert(m.last() == last@);
    assert(q.args@[4]@ =~= p.args@[4]@ + seq![' '] + last@);
}

/// An application's compositor shows nothing but the application: it runs the
/// command, announces its socket first, and has the size, the sound and the user
/// that were asked for, and a pointer to show.
pub proof fn applications_are_run_alone(
    width: u32,
    height: u32,
    cmd: &str,
    args: &[String],
    run_as: Option<TargetUser>,
    sink: Option<&str>,
    own_dir: Option<String>,
    own_uid: u32,
    p: LaunchPlan,
    program: &str,
    q: LaunchPlan,
    s: String,
)
    requires
        call_ensures(socket_wrapper_cmd, (cmd,), s),
        call_ensures(
            launch_detached,
            (width, height, cmd, args, run_as, sink, own_dir, own_uid),
            p,
        ),
        call_ensures(
            detached_compositor_command,
            (program, width, height, run_as, sink, own_dir, own_uid),
            q,
        ),
    ensures
        p.program@ == "cage"@,
        p.args@.len() == 5,
        p.args@[2]@ == "sh"@ && p.args@[3]@ == "-c"@,
        p.args@[4]@.len() >= s@.len() && p.args@[4]@.take(s@.len() as int) == s@,
        args@.len() == 0 ==> p.args@[4]@ == s@,
        backend::variables(p.set@).len() == backend::variables(q.set@).len() + 2,
        backend::variables(p.set@).take(backend::variables(q.set@).len() as int)
            == backend::variables(q.set@),
        backend::sets(p.set@, "XCURSOR_THEME"@, "Adwaita"@),
        backend::sets(p.set@, "XCURSOR_SIZE"@, "24"@),
        text::texts(p.unset@) == text::texts(q.unset@),
        p.runtime_dir@ == q.runtime_dir@,
        p.child_steps@.len() == q.child_steps@.len(),
        run_as matches Some(t) ==> p.child_steps@[3] == backend::ChildStep::SetUid(t.uid)
            && p.child_steps@[2] == backend::ChildStep::SetGid(t.gid) && p.child_steps@[1] is InitGroups,
{
    let a = text::texts(p.args@);
    assert(a.len() == p.args@.len());
    assert(a[2] == p.args@[2]@ && a[3] == p.args@[3]@ && a[4] == p.args@[4]@);
    command_comes_first(cmd@, text::texts(args@));
    let line = command_line(cmd@, text::texts(args@));
    assert(backend::announcing(line).take(s@.len() as int) =~= backend::announcing(
        line.take(cmd@.len() as int),
    ));
    let v = backend::variables(p.set@);
    let w = backend::variables(q.set@);
    assert(v.take(w.len() as int) =~= w);
    assert(v.len() == p.set@.len());
    let n = w.len() as int;
    assert(v[n] == (p.set@[n].name@, p.set@[n].value@));
    assert(v[n + 1] == (p.set@[n + 1].name@, p.set@[n + 1].value@));
}

} // verus!
