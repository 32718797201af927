//! Command-line decisions of the falsification harness: which subcommand was
//! asked for, and the options of a `falsify` run.

use vstd::prelude::*;
use crate::numeric::{invalid_value_message, parse_u64, parse_usize, spec_decimal};

verus! {

/// Options of a `falsify` run.
pub struct Options {
    pub width: usize,
    pub height: usize,
    pub moments: u64,
    pub seed: u64,
    pub output: String,
}

/// The value of an [`Options`], with the report path as text.
pub struct OptionsModel {
    pub width: usize,
    pub height: usize,
    pub moments: u64,
    pub seed: u64,
    pub output: Seq<char>,
}

impl View for Options {
    type V = OptionsModel;

    open spec fn view(&self) -> OptionsModel {
        OptionsModel {
            width: self.width,
            height: self.height,
            moments: self.moments,
            seed: self.seed,
            output: self.output@,
        }
    }
}

/// The options a `falsify` run starts from.
pub open spec fn default_options() -> OptionsModel {
    OptionsModel {
        width: 56,
        height: 36,
        moments: 1_200,
        seed: 103,
        output: "artifacts/host-falsify.txt"@,
    }
}

impl Default for Options {
    fn default() -> (r: Self)
        ensures
            r@ == default_options(),
    {
        Options {
            width: 56,
            height: 36,
            moments: 1_200,
            seed: 103,
            output: String::from_str("artifacts/host-falsify.txt"),
        }
    }
}

/// The subcommand named by the first argument.
pub enum Subcommand {
    Falsify,
    Check,
    Unknown(String),
    Missing,
}

/// Decides which subcommand the arguments (program name left out) ask for.
pub fn parse_subcommand(args: &Vec<String>) -> (r: Subcommand)
    ensures
        args@.len() == 0 ==> r is Missing,
        args@.len() > 0 ==> {
            if args@[0]@ == "falsify"@ {
                r is Falsify
            } else if args@[0]@ == "check"@ {
                r is Check
            } else {
                r matches Subcommand::Unknown(s) && s@ == args@[0]@
            }
        },
{
    if args.len() == 0 {
        return Subcommand::Missing;
    }
    let first = &args[0];
    if is_word(first, "falsify") {
        Subcommand::Falsify
    } else if is_word(first, "check") {
        Subcommand::Check
    } else {
        Subcommand::Unknown(first.clone())
    }
}

/// `arg` spells exactly `word`.
fn is_word(arg: &String, word: &str) -> (r: bool)
    ensures
        r == (arg@ == word@),
{
    let w = String::from_str(word);
    *arg == w
}

/// What the arguments of a `falsify` run ask for.
pub enum FalsifyRequest {
    /// Print the usage line and succeed.
    Help,
    /// Run the falsification with these options.
    Run(Options),
}

/// How reading the arguments of a `falsify` run ends.
pub enum FalsifyParse {
    Help,
    Run(OptionsModel),
    Invalid(Seq<char>),
    /// An option that takes a value stands last, with no value after it.
    MissingValue,
}

/// The arguments as text.
pub open spec fn arg_texts(args: Seq<String>) -> Seq<Seq<char>> {
    args.map_values(|s: String| s@)
}

/// `a` is one of the options that take a value.
pub open spec fn takes_value(a: Seq<char>) -> bool {
    a == "--width"@ || a == "--height"@ || a == "--moments"@ || a == "--seed"@ || a == "--output"@
}

/// Reads the arguments from position `i` on, with `o` the options read so
/// far. Options are read left to right; a later occurrence overrides an
/// earlier one; the first help flag, unknown argument or unreadable value
/// ends the reading.
pub open spec fn scan_falsify_args(args: Seq<Seq<char>>, i: nat, o: OptionsModel) -> FalsifyParse
    decreases args.len() - i,
{
    if i >= args.len() {
        if o.moments == 0 {
            FalsifyParse::Invalid("--moments must be greater than zero"@)
        } else {
            FalsifyParse::Run(o)
        }
    } else {
        let a = args[i as int];
        if takes_value(a) {
            if i + 1 >= args.len() {
                FalsifyParse::MissingValue
            } else {
                let v = args[i + 1int];
                let n = spec_decimal(v);
                let next = (i + 2) as nat;
                if a == "--width"@ {
                    if n is Some && n.unwrap() <= usize::MAX {
                        scan_falsify_args(args, next, OptionsModel { width: n.unwrap() as usize, ..o })
                    } else {
                        FalsifyParse::Invalid(invalid_value_message(a, v))
                    }
                } else if a == "--height"@ {
                    if n is Some && n.unwrap() <= usize::MAX {
                        scan_falsify_args(args, next, OptionsModel { height: n.unwrap() as usize, ..o })
                    } else {
                        FalsifyParse::Invalid(invalid_value_message(a, v))
                    }
                } else if a == "--moments"@ {
                    if n is Some && n.unwrap() <= u64::MAX {
                        scan_falsify_args(args, next, OptionsModel { moments: n.unwrap() as u64, ..o })
                    } else {
                        FalsifyParse::Invalid(invalid_value_message(a, v))
                    }
                } else if a == "--seed"@ {
                    if n is Some && n.unwrap() <= u64::MAX {
                        scan_falsify_args(args, next, OptionsModel { seed: n.unwrap() as u64, ..o })
                    } else {
                        FalsifyParse::Invalid(invalid_value_message(a, v))
                    }
                } else {
                    scan_falsify_args(args, next, OptionsModel { output: v, ..o })
                }
            }
        } else if a == "-h"@ || a == "--help"@ {
            FalsifyParse::Help
        } else {
            FalsifyParse::Invalid("unknown argument: "@ + a)
        }
    }
}

/// `a` followed by `v` sets an option: `a` takes a value, and for the
/// numeric options `v` is a decimal number that fits the option's type.
pub open spec fn is_option_setting(a: Seq<char>, v: Seq<char>) -> bool {
    let n = spec_decimal(v);
    if a == "--width"@ || a == "--height"@ {
        n is Some && n.unwrap() <= usize::MAX
    } else if a == "--moments"@ || a == "--seed"@ {
        n is Some && n.unwrap() <= u64::MAX
    } else {
        a == "--output"@
    }
}

/// From position `i` on, the arguments are option settings only, two by two.
pub open spec fn only_option_settings(args: Seq<Seq<char>>, i: nat) -> bool
    decreases args.len() - i,
{
    if i >= args.len() {
        true
    } else {
        i + 1 < args.len() && is_option_setting(args[i as int], args[i + 1int])
            && only_option_settings(args, (i + 2) as nat)
    }
}

/// The options once the settings from position `i` on are applied to `o`,
/// each setting overwriting its option.
pub open spec fn options_after_settings(args: Seq<Seq<char>>, i: nat, o: OptionsModel) -> OptionsModel
    decreases args.len() - i,
{
    if i + 1 >= args.len() {
        o
    } else {
        let a = args[i as int];
        let v = args[i + 1int];
        let n = spec_decimal(v).unwrap();
        let next = (i + 2) as nat;
        if a == "--width"@ {
            options_after_settings(args, next, OptionsModel { width: n as usize, ..o })
        } else if a == "--height"@ {
            options_after_settings(args, next, OptionsModel { height: n as usize, ..o })
        } else if a == "--moments"@ {
            options_after_settings(args, next, OptionsModel { moments: n as u64, ..o })
        } else if a == "--seed"@ {
            options_after_settings(args, next, OptionsModel { seed: n as u64, ..o })
        } else {
            options_after_settings(args, next, OptionsModel { output: v, ..o })
        }
    }
}

/// What the arguments of a `falsify` run amount to.
pub open spec fn spec_falsify_args(args: Seq<String>) -> FalsifyParse {
    scan_falsify_args(arg_texts(args), 0, default_options())
}

/// Reads the arguments of a `falsify` run (the subcommand left out).
/// `None` means that an option that takes a value stands last.
pub fn parse_falsify_args(args: &Vec<String>) -> (r: Option<Result<FalsifyRequest, String>>)
    ensures
        match spec_falsify_args(args@) {
            FalsifyParse::Help => r matches Some(Ok(FalsifyRequest::Help)),
            FalsifyParse::Run(m) => r matches Some(Ok(FalsifyRequest::Run(o))) && o@ == m,
            FalsifyParse::Invalid(msg) => r matches Some(Err(e)) && e@ == msg,
            FalsifyParse::MissingValue => r is None,
        },
{
    let ghost texts = arg_texts(args@);
    let mut options = Options::default();
    let mut i: usize = 0;
    while i < args.len()
        invariant
            i <= args@.len(),
            texts == arg_texts(args@),
            texts.len() == args@.len(),
            scan_falsify_args(texts, i as nat, options@) == spec_falsify_args(args@),
        decreases args@.len() - i,
    {
        let arg = &args[i];
        assert(texts[i as int] == arg@);
        let is_width = is_word(arg, "--width");
        let is_height = is_word(arg, "--height");
        let is_moments = is_word(arg, "--moments");
        let is_seed = is_word(arg, "--seed");
        let is_output = is_word(arg, "--output");
        if is_width || is_height || is_moments || is_seed || is_output {
            if i + 1 >= args.len() {
                return None;
            }
            let value = &args[i + 1];
            assert(texts[i + 1] == value@);
            if is_width {
                match parse_usize(arg.as_str(), value.as_str()) {
                    Ok(n) => { options.width = n; },
                    Err(e) => { return Some(Err(e)); },
                }
            } else if is_height {
                match parse_usize(arg.as_str(), value.as_str()) {
                    Ok(n) => { options.height = n; },
                    Err(e) => { return Some(Err(e)); },
                }
            } else if is_moments {
                match parse_u64(arg.as_str(), value.as_str()) {
                    Ok(n) => { options.moments = n; },
                    Err(e) => { return Some(Err(e)); },
                }
            } else if is_seed {
                match parse_u64(arg.as_str(), value.as_str()) {
                    Ok(n) => { options.seed = n; },
                    Err(e) => { return Some(Err(e)); },
                }
            } else {
                options.output = value.clone();
            }
            i = i + 2;
        } else if is_word(arg, "-h") || is_word(arg, "--help") {
            return Some(Ok(FalsifyRequest::Help));
        } else {
            let mut msg = String::from_str("unknown argument: ");
            msg.append(arg.as_str());
            return Some(Err(msg));
        }
    }
    if options.moments == 0 {
        return Some(Err(String::from_str("--moments must be greater than zero")));
    }
    Some(Ok(FalsifyRequest::Run(options)))
}

} // verus!
