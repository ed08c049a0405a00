//! Update channels ("topics") that add package sources to the target system.

use vstd::prelude::*;
use vstd::string::*;
use crate::text::list_contains;
use crate::text::list_has;
use crate::text::texts_of;

verus! {

/// Where the state of the topic manager lies in the target system.
pub const ATM_STATE: &'static str = "var/lib/atm/state";

/// Where the package sources of the topics lie in the target system.
pub const ATM_LIST: &'static str = "etc/apt/sources.list.d/atm.list";

/// The mirror that topics are installed from.
pub const DEFAULT_MIRROR: &'static str = "https://repo.aosc.io/debs";

/// Where the list of all topics is published.
pub const TOPIC_MANIFEST_URL: &'static str = "https://repo.aosc.io/debs/manifest/topics.json";

/// A topic.
#[derive(Clone, Debug, PartialEq, Eq)]
pub struct Topic {
    /// Name of the topic.
    pub name: String,
    /// What the topic is about.
    pub description: Option<String>,
    /// When the topic was opened, in seconds since the epoch.
    pub date: u64,
    /// When the topic was last updated, in seconds since the epoch.
    pub update_date: u64,
    /// The architectures for which the topic has packages.
    pub arch: Vec<String>,
    /// The packages of the topic.
    pub packages: Vec<String>,
    /// Whether the topic is still a draft.
    pub draft: bool,
}

/// Why no topic was selected.
#[derive(Clone, Debug, PartialEq, Eq)]
pub enum TopicError {
    /// None of the names asked for is the name of a topic. `available`
    /// holds the names of all topics.
    NoneExist { available: Vec<String> },
}

/// The topics of `all` whose name is among `specified`, in their order.
pub open spec fn selected_topics(specified: Seq<String>, all: Seq<Topic>) -> Seq<Topic>
    decreases all.len(),
{
    if all.len() == 0 {
        Seq::empty()
    } else if list_has(specified, all.last().name@) {
        selected_topics(specified, all.drop_last()).push(all.last())
    } else {
        selected_topics(specified, all.drop_last())
    }
}

/// The names of topics.
pub open spec fn topic_names(all: Seq<Topic>) -> Seq<Seq<char>> {
    Seq::new(all.len(), |i: int| all[i].name@)
}

/// Picks the topics whose names were asked for. It is an error if there is
/// none of them.
pub fn filter_topics(specified: &Vec<String>, all: Vec<Topic>) -> (r: Result<Vec<Topic>, TopicError>)
    ensures
        match r {
            Ok(chosen) => chosen@ == selected_topics(specified@, all@) && chosen@.len() > 0,
            Err(TopicError::NoneExist { available }) => {
                &&& selected_topics(specified@, all@).len() == 0
                &&& texts_of(available@) == topic_names(all@)
            },
        },
{
    let mut chosen: Vec<Topic> = Vec::new();
    let mut available: Vec<String> = Vec::new();
    let ghost everything = all@;
    assert(everything.take(0) =~= Seq::<Topic>::empty());
    for topic in it: all
        invariant
            it.seq() == everything,
            chosen@ == selected_topics(specified@, everything.take(it.index() as int)),
            available@.len() == it.index(),
            forall|j: int| 0 <= j < it.index() ==> (#[trigger] available@[j])@ == everything[j].name@,
    {
        proof {
            let i = it.index() as int;
            assert(everything.take(i + 1).drop_last() =~= everything.take(i));
            assert(everything.take(i + 1).last() == topic);
        }
        available.push(topic.name.clone());
        if list_contains(specified, topic.name.as_str()) {
            chosen.push(topic);
        }
    }
    assert(everything.take(everything.len() as int) =~= everything);
    if chosen.len() == 0 {
        assert(texts_of(available@) =~= topic_names(all@));
        Err(TopicError::NoneExist { available })
    } else {
        Ok(chosen)
    }
}

/// One line of package sources for each topic.
pub open spec fn sources_list(names: Seq<Seq<char>>) -> Seq<char>
    decreases names.len(),
{
    if names.len() == 0 {
        Seq::empty()
    } else {
        sources_list(names.drop_last()) + "deb https://repo.aosc.io/debs "@ + names.last()
            + " main\n"@
    }
}

/// The package sources of the topics, as they are written to the target
/// system: one line `deb`, mirror, topic, `main` for each.
pub fn topic_sources(topics: &Vec<Topic>) -> (content: String)
    ensures
        content@ == sources_list(topic_names(topics@)),
{
    let mut content = String::new();
    let ghost names = topic_names(topics@);
    let mut i: usize = 0;
    assert(names.take(0) =~= Seq::<Seq<char>>::empty());
    assert(content@ =~= sources_list(names.take(0)));
    while i < topics.len()
        invariant
            i <= topics.len(),
            names == topic_names(topics@),
            content@ == sources_list(names.take(i as int)),
        decreases topics.len() - i,
    {
        content.append("deb https://repo.aosc.io/debs ");
        content.append(topics[i].name.as_str());
        content.append(" main\n");
        proof {
            assert(names.take(i + 1).drop_last() =~= names.take(i as int));
            assert(names.take(i + 1).last() == topics@[i as int].name@);
            assert(content@ =~= sources_list(names.take(i + 1)));
        }
        i += 1;
    }
    assert(names.take(topics@.len() as int) =~= names);
    content
}

} // verus!
