//! The arguments of the two invocations of the transfer tool: the preview
//! that sizes a job and the transfer itself.
use vstd::prelude::*;
use crate::job::strings_view;

verus! {

/// Behaviour the user picked for the transfer.
#[derive(Clone, Copy, Debug, PartialEq, Eq, Structural)]
pub struct SyncOptions {
    pub archive: bool,
    pub recursive: bool,
    pub symlinks: bool,
    pub permissions: bool,
    pub time: bool,
    pub group: bool,
    pub compress: bool,
}

pub open spec fn flag_if(on: bool, flag: Seq<char>) -> Seq<Seq<char>> {
    if on {
        seq![flag]
    } else {
        seq![]
    }
}

/// The transfer's arguments: itemised changes and progress, then archive
/// mode or the single behaviours it stands for, compression, and the two
/// paths.
pub open spec fn transfer_args_of(o: SyncOptions, src: Seq<char>, dest: Seq<char>) -> Seq<Seq<char>> {
    seq!["-i"@, "--progress"@] + behaviour_args(o) + flag_if(o.compress, "-z"@) + seq![src, dest]
}

/// Archive mode, or the single behaviours it stands for.
pub open spec fn behaviour_args(o: SyncOptions) -> Seq<Seq<char>> {
    if o.archive {
        seq!["-a"@]
    } else {
        flag_if(o.recursive, "-r"@) + flag_if(o.symlinks, "-l"@) + flag_if(o.permissions, "-p"@)
            + flag_if(o.time, "-t"@) + flag_if(o.group, "-g"@)
    }
}

/// The preview's arguments: key-based login only, a dry run in archive
/// mode with statistics, and the two paths.
pub open spec fn preview_args_of(src: Seq<char>, dest: Seq<char>) -> Seq<Seq<char>> {
    seq![
        "-e"@,
        "ssh -o PasswordAuthentication=no -o PreferredAuthentications=publickey"@,
        "-an"@,
        "--stats"@,
        src,
        dest,
    ]
}

fn push_if(v: &mut Vec<String>, on: bool, flag: &str)
    ensures
        strings_view(final(v)@) == strings_view(old(v)@) + flag_if(on, flag@),
{
    let ghost before = v@;
    if on {
        v.push(flag.to_owned());
    }
    assert(strings_view(v@) =~= strings_view(before) + flag_if(on, flag@));
}

fn push_text(v: &mut Vec<String>, t: &str)
    ensures
        strings_view(final(v)@) == strings_view(old(v)@).push(t@),
{
    let ghost before = v@;
    v.push(t.to_owned());
    assert(strings_view(v@) =~= strings_view(before).push(t@));
}

impl SyncOptions {
    fn push_behaviour(&self, v: &mut Vec<String>)
        ensures
            strings_view(final(v)@) == strings_view(old(v)@) + behaviour_args(*self),
    {
        let ghost s0 = strings_view(v@);
        if self.archive {
            push_text(v, "-a");
            assert(strings_view(v@) =~= s0 + behaviour_args(*self));
        } else {
            push_if(v, self.recursive, "-r");
            push_if(v, self.symlinks, "-l");
            push_if(v, self.permissions, "-p");
            push_if(v, self.time, "-t");
            push_if(v, self.group, "-g");
            assert(strings_view(v@) =~= s0 + behaviour_args(*self));
        }
    }

    /// The arguments of the transfer from `src` to `dest`.
    pub fn transfer_args(&self, src: &str, dest: &str) -> (r: Vec<String>)
        ensures
            strings_view(r@) == transfer_args_of(*self, src@, dest@),
    {
        let mut v: Vec<String> = Vec::new();
        assert(strings_view(v@) =~= Seq::<Seq<char>>::empty());
        push_text(&mut v, "-i");
        push_text(&mut v, "--progress");
        let ghost s1 = strings_view(v@);
        assert(s1 =~= seq!["-i"@, "--progress"@]);
        self.push_behaviour(&mut v);
        let ghost s2 = strings_view(v@);
        push_if(&mut v, self.compress, "-z");
        let ghost s3 = strings_view(v@);
        push_text(&mut v, src);
        push_text(&mut v, dest);
        assert(strings_view(v@) =~= s3 + seq![src@, dest@]);
        assert(strings_view(v@) =~= transfer_args_of(*self, src@, dest@));
        v
    }
}

/// The arguments of the preview run from `src` to `dest`.
pub fn preview_args(src: &str, dest: &str) -> (r: Vec<String>)
    ensures
        strings_view(r@) == preview_args_of(src@, dest@),
{
    let mut v: Vec<String> = Vec::new();
    v.push("-e".to_owned());
    v.push("ssh -o PasswordAuthentication=no -o PreferredAuthentications=publickey".to_owned());
    v.push("-an".to_owned());
    v.push("--stats".to_owned());
    v.push(src.to_owned());
    v.push(dest.to_owned());
    assert(strings_view(v@) =~= preview_args_of(src@, dest@));
    v
}

} // verus!
