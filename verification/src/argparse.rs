//! The compiler's command line: options and input files. Arguments are taken
//! as the bytes of their platform encoding.

use vstd::prelude::*;

verus! {

/// The options that the command line sets.
pub struct Options {
    pub help: bool,
    pub version: bool,
    pub optimisation_level: u32,
    pub output_file: Option<Vec<u8>>,
    /// `-S`: emit assembly text rather than an object file.
    pub emit_assembly: bool,
    /// `-emit-llvm`: emit LLVM's representation of the program.
    pub emit_llvm: bool,
}

/// The options and the arguments that are not options.
pub struct ParseResult {
    pub options: Options,
    pub positional_arguments: Vec<Vec<u8>>,
}

/// What is wrong with a command line: an option that needs an argument came
/// last, or an option is not known.
pub enum ParseError {
    MissingArgumentToOption(Vec<u8>),
    InvalidOption(Vec<u8>),
}

/// The meaning of a command line, as far as it has been read.
pub struct ArgsModel {
    pub help: bool,
    pub version: bool,
    pub optimisation_level: u32,
    pub output_file: Option<Seq<u8>>,
    pub emit_assembly: bool,
    pub emit_llvm: bool,
    pub positional: Seq<Seq<u8>>,
}

/// The errors, by the offending option.
pub enum ArgsErrorModel {
    MissingArgumentToOption(Seq<u8>),
    InvalidOption(Seq<u8>),
}

impl Options {
    pub open spec fn model(&self, positional: Seq<Seq<u8>>) -> ArgsModel {
        ArgsModel {
            help: self.help,
            version: self.version,
            optimisation_level: self.optimisation_level,
            output_file: match self.output_file {
                Some(f) => Some(f@),
                None => None,
            },
            emit_assembly: self.emit_assembly,
            emit_llvm: self.emit_llvm,
            positional,
        }
    }
}

impl ParseResult {
    /// The meaning of this result.
    pub open spec fn model(&self) -> ArgsModel {
        self.options.model(bytes_views(self.positional_arguments@))
    }
}

impl ParseError {
    /// The meaning of this error.
    pub open spec fn model(&self) -> ArgsErrorModel {
        match self {
            ParseError::MissingArgumentToOption(o) => ArgsErrorModel::MissingArgumentToOption(o@),
            ParseError::InvalidOption(o) => ArgsErrorModel::InvalidOption(o@),
        }
    }
}

impl Default for Options {
    /// No help, no version, optimisation level 0, no output file, an object
    /// file to emit.
    fn default() -> (o: Options)
        ensures
            !o.help,
            !o.version,
            o.optimisation_level == 0,
            o.output_file is None,
            !o.emit_assembly,
            !o.emit_llvm,
    {
        Options {
            help: false,
            version: false,
            optimisation_level: 0,
            output_file: None,
            emit_assembly: false,
            emit_llvm: false,
        }
    }
}

/// The byte sequences of a sequence of byte vectors.
pub open spec fn bytes_views(v: Seq<Vec<u8>>) -> Seq<Seq<u8>> {
    v.map_values(|a: Vec<u8>| a@)
}

/// Nothing set yet.
pub open spec fn initial_model() -> ArgsModel {
    ArgsModel {
        help: false,
        version: false,
        optimisation_level: 0,
        output_file: None,
        emit_assembly: false,
        emit_llvm: false,
        positional: Seq::empty(),
    }
}

pub open spec fn opt_dashdash() -> Seq<u8> {
    seq![45u8, 45u8]
}

pub open spec fn opt_help() -> Seq<u8> {
    seq![45u8, 45u8, 104u8, 101u8, 108u8, 112u8]
}

pub open spec fn opt_version() -> Seq<u8> {
    seq![45u8, 45u8, 118u8, 101u8, 114u8, 115u8, 105u8, 111u8, 110u8]
}

/// `-O0`, `-O1` or `-O2` for level 0, 1 or 2.
pub open spec fn opt_level(level: u8) -> Seq<u8> {
    seq![45u8, 79u8, (48 + level) as u8]
}

pub open spec fn opt_output() -> Seq<u8> {
    seq![45u8, 111u8]
}

/// `-S`.
pub open spec fn opt_assembly() -> Seq<u8> {
    seq![45u8, 83u8]
}

/// `-emit-llvm`.
pub open spec fn opt_emit_llvm() -> Seq<u8> {
    seq![45u8, 101u8, 109u8, 105u8, 116u8, 45u8, 108u8, 108u8, 118u8, 109u8]
}

/// Whether `--help` is among `args` before any `--`.
pub open spec fn help_before_dashdash(args: Seq<Seq<u8>>) -> bool
    decreases args.len(),
{
    if args.len() == 0 {
        false
    } else if args[0] == opt_help() {
        true
    } else if args[0] == opt_dashdash() {
        false
    } else {
        help_before_dashdash(args.drop_first())
    }
}

/// The meaning of the arguments `args` read after the state `st`:
/// - an argument that does not start with `-` is positional;
/// - `--` makes all the arguments after it positional;
/// - `--help` sets its flag and ends the reading;
/// - `--version` sets its flag and ends the reading, except that a later
///   `--help` (before any `--`) still sets the help flag: help takes
///   precedence wherever it stands;
/// - `-S` and `-emit-llvm` set their flags;
/// - `-O0`, `-O1`, `-O2` set the optimisation level;
/// - `-o` takes the next argument as the output file (an error if there is
///   none), and `-ofile` names the output file `file`;
/// - any other argument that starts with `-` is an invalid option.
pub open spec fn spec_parse_args(st: ArgsModel, args: Seq<Seq<u8>>) -> Result<
    ArgsModel,
    ArgsErrorModel,
>
    decreases args.len(),
{
    if args.len() == 0 {
        Ok(st)
    } else {
        let a = args[0];
        let rest = args.drop_first();
        if a.len() >= 1 && a[0] == 45u8 {
            if a == opt_dashdash() {
                Ok(ArgsModel { positional: st.positional + rest, ..st })
            } else if a == opt_help() {
                Ok(ArgsModel { help: true, ..st })
            } else if a == opt_version() {
                Ok(ArgsModel { version: true, help: st.help || help_before_dashdash(rest), ..st })
            } else if a == opt_assembly() {
                spec_parse_args(ArgsModel { emit_assembly: true, ..st }, rest)
            } else if a == opt_emit_llvm() {
                spec_parse_args(ArgsModel { emit_llvm: true, ..st }, rest)
            } else if a == opt_level(0) {
                spec_parse_args(ArgsModel { optimisation_level: 0, ..st }, rest)
            } else if a == opt_level(1) {
                spec_parse_args(ArgsModel { optimisation_level: 1, ..st }, rest)
            } else if a == opt_level(2) {
                spec_parse_args(ArgsModel { optimisation_level: 2, ..st }, rest)
            } else if a == opt_output() {
                if rest.len() > 0 {
                    spec_parse_args(
                        ArgsModel { output_file: Some(rest[0]), ..st },
                        rest.drop_first(),
                    )
                } else {
                    Err(ArgsErrorModel::MissingArgumentToOption(a))
                }
            } else if a.len() >= 2 && a[1] == 111u8 {
                spec_parse_args(ArgsModel { output_file: Some(a.skip(2)), ..st }, rest)
            } else {
                Err(ArgsErrorModel::InvalidOption(a))
            }
        } else {
            spec_parse_args(ArgsModel { positional: st.positional.push(a), ..st }, rest)
        }
    }
}

/// Whether `a` holds exactly the bytes `b`.
fn bytes_eq(a: &Vec<u8>, b: &[u8]) -> (r: bool)
    ensures
        r == (a@ == b@),
{
    if a.len() != b.len() {
        return false;
    }
    let mut i: usize = 0;
    while i < a.len()
        invariant
            i <= a@.len(),
            a@.len() == b@.len(),
            forall|j: int| 0 <= j < i ==> a@[j] == b@[j],
        decreases a@.len() - i,
    {
        if a[i] != b[i] {
            return false;
        }
        i = i + 1;
    }
    assert(a@ =~= b@);
    true
}

/// The bytes of `a` from position 2 on.
fn bytes_after_two(a: &Vec<u8>) -> (r: Vec<u8>)
    requires
        a@.len() >= 2,
    ensures
        r@ == a@.skip(2),
{
    let mut r: Vec<u8> = Vec::new();
    let mut i: usize = 2;
    while i < a.len()
        invariant
            2 <= i <= a@.len(),
            r@ == a@.subrange(2, i as int),
        decreases a@.len() - i,
    {
        r.push(a[i]);
        i = i + 1;
        assert(r@ =~= a@.subrange(2, i as int));
    }
    assert(r@ =~= a@.skip(2));
    r
}

fn copy_bytes(a: &Vec<u8>) -> (r: Vec<u8>)
    ensures
        r@ == a@,
{
    let mut r: Vec<u8> = Vec::new();
    let mut i: usize = 0;
    while i < a.len()
        invariant
            i <= a@.len(),
            r@ == a@.subrange(0, i as int),
        decreases a@.len() - i,
    {
        r.push(a[i]);
        i = i + 1;
        assert(r@ =~= a@.subrange(0, i as int));
    }
    assert(r@ =~= a@);
    r
}

/// Whether `--help` comes among the arguments from `start` on, before any
/// `--`.
fn help_follows(args: &Vec<Vec<u8>>, start: usize) -> (b: bool)
    requires
        start <= args@.len(),
    ensures
        b == help_before_dashdash(bytes_views(args@).skip(start as int)),
{
    let ghost all = bytes_views(args@);
    let mut j = start;
    while j < args.len()
        invariant
            start <= j <= args@.len(),
            all == bytes_views(args@),
            all.len() == args@.len(),
            help_before_dashdash(all.skip(start as int)) == help_before_dashdash(
                all.skip(j as int),
            ),
        decreases args@.len() - j,
    {
        let ghost here = all.skip(j as int);
        assert(here[0] == args@[j as int]@);
        assert(here.drop_first() =~= all.skip(j + 1));
        if bytes_eq(&args[j], &[45u8, 45u8, 104u8, 101u8, 108u8, 112u8]) {
            return true;
        }
        if bytes_eq(&args[j], &[45u8, 45u8]) {
            return false;
        }
        j = j + 1;
    }
    assert(all.skip(j as int) =~= Seq::<Seq<u8>>::empty());
    false
}

/// Reads a command line, the program name left out, as `spec_parse_args`
/// says.
pub fn parse(args: Vec<Vec<u8>>) -> (r: core::result::Result<ParseResult, ParseError>)
    ensures
        match r {
            Ok(res) => spec_parse_args(initial_model(), bytes_views(args@)) == Ok::<
                ArgsModel,
                ArgsErrorModel,
            >(res.model()),
            Err(e) => spec_parse_args(initial_model(), bytes_views(args@)) == Err::<
                ArgsModel,
                ArgsErrorModel,
            >(e.model()),
        },
{
    let mut ret = ParseResult { options: Options::default(), positional_arguments: Vec::new() };
    let ghost all = bytes_views(args@);
    assert(all.skip(0) =~= all);
    assert(bytes_views(ret.positional_arguments@) =~= Seq::<Seq<u8>>::empty());
    let mut i: usize = 0;
    while i < args.len()
        invariant
            i <= args@.len(),
            all == bytes_views(args@),
            all.len() == args@.len(),
            spec_parse_args(initial_model(), all) == spec_parse_args(ret.model(), all.skip(i as int)),
        decreases args@.len() - i,
    {
        let arg = &args[i];
        let ghost a = all[i as int];
        let ghost rest = all.skip(i as int).drop_first();
        assert(a == arg@);
        assert(all.skip(i as int)[0] == a);
        assert(rest =~= all.skip(i + 1));
        if arg.len() >= 1 && arg[0] == 45u8 {
            if bytes_eq(arg, &[45u8, 45u8]) {
                let ghost before = bytes_views(ret.positional_arguments@);
                let ghost m0 = ret.model();
                let mut j = i + 1;
                assert(all.skip(j as int) =~= rest);
                assert(before + all.subrange(i + 1, j as int) =~= before);
                while j < args.len()
                    invariant
                        i < j <= args@.len(),
                        all == bytes_views(args@),
                        all.len() == args@.len(),
                        m0.positional == before,
                        spec_parse_args(initial_model(), all) == spec_parse_args(
                            m0,
                            all.skip(i as int),
                        ),
                        ret.model() == (ArgsModel {
                            positional: before + all.subrange(i + 1, j as int),
                            ..m0
                        }),
                    decreases args@.len() - j,
                {
                    let copy = copy_bytes(&args[j]);
                    let ghost prev = bytes_views(ret.positional_arguments@);
                    ret.positional_arguments.push(copy);
                    assert(bytes_views(ret.positional_arguments@) =~= prev.push(all[j as int]));
                    assert(before + all.subrange(i + 1, j + 1) =~= (before + all.subrange(
                        i + 1,
                        j as int,
                    )).push(all[j as int]));
                    j = j + 1;
                }
                assert(all.subrange(i + 1, args@.len() as int) =~= rest);
                return Ok(ret);
            } else if bytes_eq(arg, &[45u8, 45u8, 104u8, 101u8, 108u8, 112u8]) {
                ret.options.help = true;
                return Ok(ret);
            } else if bytes_eq(arg, &[45u8, 45u8, 118u8, 101u8, 114u8, 115u8, 105u8, 111u8, 110u8]) {
                ret.options.version = true;
                let later_help = help_follows(&args, i + 1);
                assert(all.skip(i + 1) =~= rest);
                if later_help {
                    ret.options.help = true;
                }
                return Ok(ret);
            } else if bytes_eq(arg, &[45u8, 83u8]) {
                ret.options.emit_assembly = true;
            } else if bytes_eq(arg, &[45u8, 101u8, 109u8, 105u8, 116u8, 45u8, 108u8, 108u8, 118u8, 109u8]) {
                ret.options.emit_llvm = true;
            } else if bytes_eq(arg, &[45u8, 79u8, 48u8]) {
                ret.options.optimisation_level = 0;
            } else if bytes_eq(arg, &[45u8, 79u8, 49u8]) {
                ret.options.optimisation_level = 1;
            } else if bytes_eq(arg, &[45u8, 79u8, 50u8]) {
                ret.options.optimisation_level = 2;
            } else if bytes_eq(arg, &[45u8, 111u8]) {
                if i + 1 < args.len() {
                    let out = copy_bytes(&args[i + 1]);
                    ret.options.output_file = Some(out);
                    i = i + 1;
                    assert(rest.drop_first() =~= all.skip(i + 1));
                } else {
                    return Err(ParseError::MissingArgumentToOption(copy_bytes(arg)));
                }
            } else if arg.len() >= 2 && arg[1] == 111u8 {
                let out = bytes_after_two(arg);
                ret.options.output_file = Some(out);
            } else {
                return Err(ParseError::InvalidOption(copy_bytes(arg)));
            }
        } else {
            let copy = copy_bytes(arg);
            let ghost before = bytes_views(ret.positional_arguments@);
            ret.positional_arguments.push(copy);
            assert(bytes_views(ret.positional_arguments@) =~= before.push(a));
        }
        i = i + 1;
    }
    assert(all.skip(i as int) =~= Seq::<Seq<u8>>::empty());
    Ok(ret)
}


// ---------------------------------------------------------------------------
// Laws of the command line.

/// Arguments that do not start with `-` are all positional, kept in order,
/// and set no option.
pub proof fn lemma_plain_arguments_positional(st: ArgsModel, args: Seq<Seq<u8>>)
    requires
        forall|i: int| 0 <= i < args.len() ==> (#[trigger] args[i]).len() == 0 || args[i][0] != 45u8,
    ensures
        spec_parse_args(st, args) == Ok::<ArgsModel, ArgsErrorModel>(
            ArgsModel { positional: st.positional + args, ..st },
        ),
    decreases args.len(),
{
    if args.len() == 0 {
        assert(st.positional + args =~= st.positional);
    } else {
        let rest = args.drop_first();
        assert forall|i: int| 0 <= i < rest.len() implies (#[trigger] rest[i]).len() == 0
            || rest[i][0] != 45u8 by {
            assert(rest[i] == args[i + 1]);
        }
        let next = ArgsModel { positional: st.positional.push(args[0]), ..st };
        lemma_plain_arguments_positional(next, rest);
        assert(st.positional.push(args[0]) + rest =~= st.positional + args);
    }
}

/// After `--` every argument is positional, whatever it looks like.
pub proof fn lemma_dashdash_makes_rest_positional(st: ArgsModel, rest: Seq<Seq<u8>>)
    ensures
        spec_parse_args(st, seq![opt_dashdash()] + rest) == Ok::<ArgsModel, ArgsErrorModel>(
            ArgsModel { positional: st.positional + rest, ..st },
        ),
{
    let args = seq![opt_dashdash()] + rest;
    assert(args[0] == opt_dashdash());
    assert(args.drop_first() =~= rest);
}

/// `--help` and `--version` end the reading: what follows them, options that
/// are not known among them, has no effect, except that `--help` after
/// `--version` (before any `--`) still asks for help.
pub proof fn lemma_help_and_version_stop(st: ArgsModel, rest: Seq<Seq<u8>>)
    ensures
        spec_parse_args(st, seq![opt_help()] + rest) == Ok::<ArgsModel, ArgsErrorModel>(
            ArgsModel { help: true, ..st },
        ),
        spec_parse_args(st, seq![opt_version()] + rest) == Ok::<ArgsModel, ArgsErrorModel>(
            ArgsModel { version: true, help: st.help || help_before_dashdash(rest), ..st },
        ),
{
    let h = seq![opt_help()] + rest;
    let v = seq![opt_version()] + rest;
    assert(h[0] == opt_help());
    assert(v[0] == opt_version());
    assert(opt_help() != opt_dashdash()) by {
        assert(opt_help().len() != opt_dashdash().len());
    }
    assert(opt_version() != opt_dashdash()) by {
        assert(opt_version().len() != opt_dashdash().len());
    }
    assert(opt_version() != opt_help()) by {
        assert(opt_version().len() != opt_help().len());
    }
    assert(v.drop_first() =~= rest);
}

/// `--help` wins over `--version` in either order.
pub proof fn lemma_help_wins_over_version(st: ArgsModel)
    ensures
        spec_parse_args(st, seq![opt_version(), opt_help()]) matches Ok(m) && m.help && m.version,
        spec_parse_args(st, seq![opt_help(), opt_version()]) matches Ok(m) && m.help,
{
    let vh = seq![opt_version(), opt_help()];
    let hv = seq![opt_help(), opt_version()];
    assert(opt_help() != opt_dashdash()) by {
        assert(opt_help().len() != opt_dashdash().len());
    }
    assert(opt_version() != opt_dashdash()) by {
        assert(opt_version().len() != opt_dashdash().len());
    }
    assert(opt_version() != opt_help()) by {
        assert(opt_version().len() != opt_help().len());
    }
    let r = vh.drop_first();
    assert(r =~= seq![opt_help()]);
    assert(help_before_dashdash(r));
}

/// `-O0`, `-O1` and `-O2` set the optimisation level to 0, 1 and 2, and
/// reading goes on with the next argument.
pub proof fn lemma_optimisation_levels(st: ArgsModel, rest: Seq<Seq<u8>>)
    ensures
        spec_parse_args(st, seq![seq![45u8, 79u8, 48u8]] + rest) == spec_parse_args(
            ArgsModel { optimisation_level: 0, ..st },
            rest,
        ),
        spec_parse_args(st, seq![seq![45u8, 79u8, 49u8]] + rest) == spec_parse_args(
            ArgsModel { optimisation_level: 1, ..st },
            rest,
        ),
        spec_parse_args(st, seq![seq![45u8, 79u8, 50u8]] + rest) == spec_parse_args(
            ArgsModel { optimisation_level: 2, ..st },
            rest,
        ),
{
    let a0 = seq![45u8, 79u8, 48u8];
    let a1 = seq![45u8, 79u8, 49u8];
    let a2 = seq![45u8, 79u8, 50u8];
    assert((seq![a0] + rest).drop_first() =~= rest);
    assert((seq![a1] + rest).drop_first() =~= rest);
    assert((seq![a2] + rest).drop_first() =~= rest);
    assert((seq![a0] + rest)[0] == a0);
    assert((seq![a1] + rest)[0] == a1);
    assert((seq![a2] + rest)[0] == a2);
    assert(a0 =~= opt_level(0));
    assert(a1 =~= opt_level(1));
    assert(a2 =~= opt_level(2));
    assert(a1 != opt_level(0)) by {
        assert(a1[2] != opt_level(0)[2]);
    }
    assert(a2 != opt_level(0)) by {
        assert(a2[2] != opt_level(0)[2]);
    }
    assert(a2 != opt_level(1)) by {
        assert(a2[2] != opt_level(1)[2]);
    }
    assert(a0 != opt_dashdash() && a1 != opt_dashdash() && a2 != opt_dashdash()) by {
        assert(a0.len() != opt_dashdash().len());
    }
    assert(a0 != opt_help() && a1 != opt_help() && a2 != opt_help()) by {
        assert(a0.len() != opt_help().len());
    }
    assert(a0 != opt_version() && a1 != opt_version() && a2 != opt_version()) by {
        assert(a0.len() != opt_version().len());
    }
    assert(a0 != opt_assembly() && a1 != opt_assembly() && a2 != opt_assembly()) by {
        assert(a0.len() != opt_assembly().len());
    }
    assert(a0 != opt_emit_llvm() && a1 != opt_emit_llvm() && a2 != opt_emit_llvm()) by {
        assert(a0.len() != opt_emit_llvm().len());
    }
}

/// `-o` takes the next argument as the output file, `-o` with nothing after
/// it is an error, and `-oFILE` names the output file `FILE`.
pub proof fn lemma_output_file(st: ArgsModel, file: Seq<u8>, rest: Seq<Seq<u8>>)
    ensures
        spec_parse_args(st, seq![seq![45u8, 111u8], file] + rest) == spec_parse_args(
            ArgsModel { output_file: Some(file), ..st },
            rest,
        ),
        spec_parse_args(st, seq![seq![45u8, 111u8]]) == Err::<ArgsModel, ArgsErrorModel>(
            ArgsErrorModel::MissingArgumentToOption(seq![45u8, 111u8]),
        ),
        file.len() >= 1 ==> spec_parse_args(st, seq![seq![45u8, 111u8] + file] + rest)
            == spec_parse_args(ArgsModel { output_file: Some(file), ..st }, rest),
{
    let o = seq![45u8, 111u8];
    let args = seq![o, file] + rest;
    assert(args[0] == o && args.drop_first()[0] == file);
    assert(args.drop_first().drop_first() =~= rest);
    assert(o =~= opt_output());
    assert(o != opt_dashdash()) by {
        assert(o[1] != opt_dashdash()[1]);
    }
    assert(o != opt_help() && o != opt_version() && o != opt_emit_llvm()) by {
        assert(o.len() != opt_help().len());
        assert(o.len() != opt_version().len());
        assert(o.len() != opt_emit_llvm().len());
    }
    assert(o != opt_assembly()) by {
        assert(o[1] != opt_assembly()[1]);
    }
    assert(o != opt_level(0) && o != opt_level(1) && o != opt_level(2)) by {
        assert(o.len() != opt_level(0).len());
    }
    assert(seq![o][0] == o && seq![o].drop_first() =~= Seq::<Seq<u8>>::empty());
    if file.len() >= 1 {
        let a = o + file;
        let args2 = seq![a] + rest;
        assert(args2[0] == a && args2.drop_first() =~= rest);
        assert(a[0] == 45u8 && a[1] == 111u8);
        assert(a.skip(2) =~= file);
        assert(a != opt_dashdash()) by {
            assert(a[1] != opt_dashdash()[1]);
        }
        assert(a != opt_help()) by {
            assert(a[1] != opt_help()[1]);
        }
        assert(a != opt_version()) by {
            assert(a[1] != opt_version()[1]);
        }
        assert(a != opt_assembly()) by {
            assert(a[1] != opt_assembly()[1]);
        }
        assert(a != opt_emit_llvm()) by {
            assert(a[1] != opt_emit_llvm()[1]);
        }
        assert(a != opt_level(0) && a != opt_level(1) && a != opt_level(2)) by {
            assert(a[1] != opt_level(0)[1]);
        }
        assert(a != opt_output()) by {
            assert(a.len() != opt_output().len());
        }
    }
}

/// `-S` and `-emit-llvm` set their flags, and reading goes on with the next
/// argument.
pub proof fn lemma_emit_options(st: ArgsModel, rest: Seq<Seq<u8>>)
    ensures
        spec_parse_args(st, seq![seq![45u8, 83u8]] + rest) == spec_parse_args(
            ArgsModel { emit_assembly: true, ..st },
            rest,
        ),
        spec_parse_args(
            st,
            seq![seq![45u8, 101u8, 109u8, 105u8, 116u8, 45u8, 108u8, 108u8, 118u8, 109u8]] + rest,
        ) == spec_parse_args(ArgsModel { emit_llvm: true, ..st }, rest),
{
    let a = seq![45u8, 83u8];
    let e = seq![45u8, 101u8, 109u8, 105u8, 116u8, 45u8, 108u8, 108u8, 118u8, 109u8];
    assert((seq![a] + rest)[0] == a && (seq![a] + rest).drop_first() =~= rest);
    assert((seq![e] + rest)[0] == e && (seq![e] + rest).drop_first() =~= rest);
    assert(a =~= opt_assembly());
    assert(e =~= opt_emit_llvm());
    assert(a != opt_dashdash()) by {
        assert(a[1] != opt_dashdash()[1]);
    }
    assert(a != opt_help() && a != opt_version()) by {
        assert(a.len() != opt_help().len());
        assert(a.len() != opt_version().len());
    }
    assert(e != opt_dashdash() && e != opt_help() && e != opt_version() && e != opt_assembly())
        by {
        assert(e.len() != opt_dashdash().len());
        assert(e.len() != opt_help().len());
        assert(e.len() != opt_version().len());
        assert(e.len() != opt_assembly().len());
    }
}

/// An argument that starts with `-` followed by a character that begins no
/// option (none of `-`, `O`, `o`, `S`, `e`) is an invalid option, and
/// reading stops there.
pub proof fn lemma_unknown_option(st: ArgsModel, a: Seq<u8>, rest: Seq<Seq<u8>>)
    requires
        a.len() >= 2,
        a[0] == 45u8,
        a[1] != 45u8 && a[1] != 79u8 && a[1] != 111u8 && a[1] != 83u8 && a[1] != 101u8,
    ensures
        spec_parse_args(st, seq![a] + rest) == Err::<ArgsModel, ArgsErrorModel>(
            ArgsErrorModel::InvalidOption(a),
        ),
{
    let args = seq![a] + rest;
    assert(args[0] == a);
    assert(a != opt_dashdash()) by {
        assert(a[1] != opt_dashdash()[1]);
    }
    assert(a != opt_help()) by {
        assert(a[1] != opt_help()[1]);
    }
    assert(a != opt_version()) by {
        assert(a[1] != opt_version()[1]);
    }
    assert(a != opt_assembly()) by {
        assert(a[1] != opt_assembly()[1]);
    }
    assert(a != opt_emit_llvm()) by {
        assert(a[1] != opt_emit_llvm()[1]);
    }
    assert(a != opt_level(0) && a != opt_level(1) && a != opt_level(2)) by {
        assert(a[1] != opt_level(0)[1]);
    }
    assert(a != opt_output()) by {
        assert(a[1] != opt_output()[1]);
    }
}

} // verus!
