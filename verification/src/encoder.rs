use vstd::prelude::*;
use vstd::string::*;

verus! {

/// The argument prefix of the encoder process: verbosity flags, any
/// configured extra input arguments, the realtime flag for the desktop
/// output, and the stdin pipe input.
pub open spec fn encoder_prefix_spec(
    log_format: Seq<char>,
    input_cmd: Option<Seq<Seq<char>>>,
    realtime: bool,
) -> Seq<Seq<char>> {
    let head = seq!["-hide_banner"@, "-nostats"@, "-v"@, log_format];
    let mid = match input_cmd {
        Some(cmd) => head + cmd,
        None => head,
    };
    if realtime {
        mid + seq!["-re"@, "-i"@, "pipe:0"@]
    } else {
        mid + seq!["-i"@, "pipe:0"@]
    }
}

/// Assembles the encoder's argument prefix. `realtime` adds `-re`, as the
/// desktop output does before reading from the pipe.
pub fn encoder_prefix(log_format: &str, input_cmd: Option<Vec<String>>, realtime: bool) -> (r: Vec<
    String,
>)
    ensures
        r.deep_view() == encoder_prefix_spec(log_format@, input_cmd.deep_view(), realtime),
{
    let mut r: Vec<String> = Vec::new();
    r.push(String::from_str("-hide_banner"));
    r.push(String::from_str("-nostats"));
    r.push(String::from_str("-v"));
    r.push(String::from_str(log_format));
    proof {
        assert(r.deep_view() =~= seq!["-hide_banner"@, "-nostats"@, "-v"@, log_format@]);
    }
    let ghost head = r.deep_view();
    match input_cmd {
        Some(mut cmd) => {
            let ghost extra = cmd.deep_view();
            r.append(&mut cmd);
            proof {
                assert(r.deep_view() =~= head + extra);
            }
        },
        None => {},
    }
    let ghost mid = r.deep_view();
    if realtime {
        r.push(String::from_str("-re"));
    }
    r.push(String::from_str("-i"));
    r.push(String::from_str("pipe:0"));
    proof {
        if realtime {
            assert(r.deep_view() =~= mid + seq!["-re"@, "-i"@, "pipe:0"@]);
        } else {
            assert(r.deep_view() =~= mid + seq!["-i"@, "pipe:0"@]);
        }
    }
    r
}

} // verus!
