use vstd::prelude::*;
use vstd::string::StringExecFns;

verus! {

/// What a project's own configuration file adds to a run: source folder,
/// paths to leave out, import remappings and paths to keep to.
pub struct AderynConfig {
    pub src: Option<String>,
    pub exclude: Option<Vec<String>>,
    pub remappings: Option<Vec<String>>,
    pub scope: Option<Vec<String>>,
}

/// The texts of a list of strings.
pub open spec fn texts(list: Seq<String>) -> Seq<Seq<char>> {
    list.map_values(|s: String| s@)
}

/// The list with `item` behind it, unless the list holds its text already.
pub open spec fn with_item(list: Seq<Seq<char>>, item: Seq<char>) -> Seq<Seq<char>> {
    if list.contains(item) {
        list
    } else {
        list.push(item)
    }
}

/// The list with the items of `extra` behind it, in order, each only if
/// its text is not there yet.
pub open spec fn with_items(list: Seq<Seq<char>>, extra: Seq<Seq<char>>) -> Seq<Seq<char>>
    decreases extra.len(),
{
    if extra.len() == 0 {
        list
    } else {
        with_item(with_items(list, extra.drop_last()), extra.last())
    }
}

/// Whether the list holds a string with the given text.
pub fn holds_text(list: &Vec<String>, item: &String) -> (r: bool)
    ensures
        r == texts(list@).contains(item@),
{
    let n = list.len();
    let mut i: usize = 0;
    while i < n
        invariant
            i <= n,
            n == list@.len(),
            forall|j: int| 0 <= j < i ==> texts(list@)[j] != item@,
        decreases n - i,
    {
        assert(texts(list@)[i as int] == list@[i as int]@);
        if list[i] == *item {
            return true;
        }
        i += 1;
    }
    false
}

/// Puts a copy of `item` behind the list unless the list holds its text
/// already.
pub fn append_if_missing(list: &mut Vec<String>, item: &String)
    ensures
        texts(final(list)@) == with_item(texts(old(list)@), item@),
{
    if !holds_text(list, item) {
        list.push(item.clone());
        assert(texts(list@) =~= texts(old(list)@).push(item@));
    }
}

/// A copy of a list of strings.
pub fn copy_strings(list: &Vec<String>) -> (r: Vec<String>)
    ensures
        texts(r@) == texts(list@),
{
    let mut out: Vec<String> = Vec::new();
    let n = list.len();
    let mut i: usize = 0;
    while i < n
        invariant
            i <= n,
            n == list@.len(),
            out@.len() == i,
            forall|j: int| 0 <= j < i ==> out@[j]@ == list@[j]@,
        decreases n - i,
    {
        out.push(list[i].clone());
        i += 1;
    }
    assert(texts(out@) =~= texts(list@));
    out
}

/// What a list of paths becomes when the configuration adds its own: the
/// paths given, followed by those of the configuration that are not there
/// yet. Where no paths are given, those of the configuration as they are;
/// where the configuration has none, the paths given.
pub open spec fn merged(local: Option<Seq<Seq<char>>>, extra: Option<Seq<Seq<char>>>) -> Option<
    Seq<Seq<char>>,
> {
    match extra {
        None => local,
        Some(items) => match local {
            None => Some(items),
            Some(list) => Some(with_items(list, items)),
        },
    }
}

/// The texts of an optional list of strings.
pub open spec fn optional_texts(list: Option<Vec<String>>) -> Option<Seq<Seq<char>>> {
    match list {
        Some(l) => Some(texts(l@)),
        None => None,
    }
}

/// Adds the paths of the configuration to the paths given.
pub fn merge_lists(local: &Option<Vec<String>>, extra: &Option<Vec<String>>) -> (r: Option<
    Vec<String>,
>)
    ensures
        optional_texts(r) == merged(optional_texts(*local), optional_texts(*extra)),
{
    let items = match extra {
        Some(items) => items,
        None => {
            return match local {
                Some(list) => Some(copy_strings(list)),
                None => None,
            };
        },
    };
    let mut list = match local {
        Some(list) => copy_strings(list),
        None => {
            return Some(copy_strings(items));
        },
    };
    let ghost start = texts(list@);
    let n = items.len();
    let mut i: usize = 0;
    assert(texts(items@).take(0) =~= Seq::<Seq<char>>::empty());
    while i < n
        invariant
            i <= n,
            n == items@.len(),
            texts(list@) == with_items(start, texts(items@).take(i as int)),
        decreases n - i,
    {
        assert(texts(items@).take(i + 1).drop_last() =~= texts(items@).take(i as int));
        assert(texts(items@).take(i + 1).last() == items@[i as int]@);
        append_if_missing(&mut list, &items[i]);
        i += 1;
    }
    assert(texts(items@).take(n as int) =~= texts(items@));
    Some(list)
}

/// What the four lists of a run become when the configuration adds its
/// own: source folders, paths to leave out, remappings and scope, each
/// merged with what the configuration has for it. The single source folder
/// of the configuration counts as a list of one.
pub fn append_from_config(
    config: &AderynConfig,
    src: &Option<Vec<String>>,
    exclude: &Option<Vec<String>>,
    remappings: &Option<Vec<String>>,
    scope: &Option<Vec<String>>,
) -> (r: (Option<Vec<String>>, Option<Vec<String>>, Option<Vec<String>>, Option<Vec<String>>))
    ensures
        optional_texts(r.0) == merged(
            optional_texts(*src),
            match config.src {
                Some(s) => Some(seq![s@]),
                None => None,
            },
        ),
        optional_texts(r.1) == merged(optional_texts(*exclude), optional_texts(config.exclude)),
        optional_texts(r.2) == merged(optional_texts(*remappings), optional_texts(config.remappings)),
        optional_texts(r.3) == merged(optional_texts(*scope), optional_texts(config.scope)),
{
    let config_src: Option<Vec<String>> = match &config.src {
        Some(s) => {
            let mut one: Vec<String> = Vec::new();
            one.push(s.clone());
            assert(texts(one@) =~= seq![s@]);
            Some(one)
        },
        None => None,
    };
    let local_src = merge_lists(src, &config_src);
    let local_exclude = merge_lists(exclude, &config.exclude);
    let local_remappings = merge_lists(remappings, &config.remappings);
    let local_scope = merge_lists(scope, &config.scope);
    (local_src, local_exclude, local_remappings, local_scope)
}

/// A folder as a path prefix: its name with a slash behind it.
pub fn as_folder(name: &String) -> (r: String)
    ensures
        r@ == name@ + "/"@,
{
    let mut folder = name.clone();
    folder.append("/");
    folder
}

/// The paths that are left out of a run by default: the test folder, the
/// script folder and the library folders of the build configuration, in
/// this order, each as a path prefix.
pub open spec fn default_exclude(test: Seq<char>, script: Seq<char>, libs: Seq<Seq<char>>) -> Seq<
    Seq<char>,
> {
    seq![test + "/"@, script + "/"@] + libs.map_values(|l: Seq<char>| l + "/"@)
}

/// Settles source folders, paths to leave out and remappings of a run from
/// what the caller asks for and what the build configuration says: the
/// caller's source folders, or else the one of the configuration; the
/// caller's paths to leave out, or else the default ones; the remappings
/// of the configuration.
pub fn derive_from_build_config(
    config_src: &String,
    config_script: &String,
    config_test: &String,
    config_libs: &Vec<String>,
    config_remappings: &Vec<String>,
    src: &Option<Vec<String>>,
    exclude: &Option<Vec<String>>,
) -> (r: (Option<Vec<String>>, Option<Vec<String>>, Option<Vec<String>>))
    ensures
        optional_texts(r.0) == Some(
            match src {
                Some(s) => texts(s@),
                None => seq![config_src@],
            },
        ),
        optional_texts(r.1) == Some(
            match exclude {
                Some(e) => texts(e@),
                None => default_exclude(config_test@, config_script@, texts(config_libs@)),
            },
        ),
        optional_texts(r.2) == Some(texts(config_remappings@)),
{
    // src
    let src = match src {
        Some(src) => copy_strings(src),
        None => {
            let mut one: Vec<String> = Vec::new();
            one.push(config_src.clone());
            assert(texts(one@) =~= seq![config_src@]);
            one
        },
    };
    // exclude
    let exclude = match exclude {
        Some(exclude) => copy_strings(exclude),
        None => {
            let mut list: Vec<String> = Vec::new();
            list.push(as_folder(config_test));
            list.push(as_folder(config_script));
            let n = config_libs.len();
            let mut i: usize = 0;
            while i < n
                invariant
                    i <= n,
                    n == config_libs@.len(),
                    list@.len() == 2 + i,
                    list@[0]@ == config_test@ + "/"@,
                    list@[1]@ == config_script@ + "/"@,
                    forall|j: int| 0 <= j < i ==> list@[2 + j]@ == config_libs@[j]@ + "/"@,
                decreases n - i,
            {
                list.push(as_folder(&config_libs[i]));
                i += 1;
            }
            assert(texts(list@) =~= default_exclude(
                config_test@,
                config_script@,
                texts(config_libs@),
            ));
            list
        },
    };
    // remappings
    let remappings = copy_strings(config_remappings);
    (Some(src), Some(exclude), Some(remappings))
}

} // verus!
