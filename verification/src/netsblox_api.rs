use vstd::prelude::*;
use vstd::string::*;

verus! {

broadcast use vstd::string::group_string_axioms;

/// `s` with every double quote preceded by a backslash.
pub open spec fn escape_quotes(s: Seq<char>) -> Seq<char>
    decreases s.len(),
{
    if s.len() == 0 {
        Seq::empty()
    } else {
        escape_quotes(s.drop_last()) + if s.last() == '"' {
            seq!['\\', '"']
        } else {
            seq![s.last()]
        }
    }
}

fn escaped(s: &str) -> (r: String)
    ensures
        r@ == escape_quotes(s@),
{
    let mut r = String::new();
    for c in it: s.chars()
        invariant
            it.seq() == s@,
            r@ == escape_quotes(it.seq().take(it.index() as int)),
    {
        proof {
            assert(it.seq().take(it.index() + 1).drop_last() =~= it.seq().take(it.index() as int));
        }
        if c == '"' {
            crate::util::string_push(&mut r, '\\');
        }
        crate::util::string_push(&mut r, c);
    }
    assert(s@.take(s@.len() as int) =~= s@);
    r
}

/// Words separated by single spaces.
pub open spec fn join_spaced(parts: Seq<Seq<char>>) -> Seq<char>
    decreases parts.len(),
{
    if parts.len() == 0 {
        Seq::empty()
    } else if parts.len() == 1 {
        parts[0]
    } else {
        join_spaced(parts.drop_last()) + seq![' '] + parts.last()
    }
}

/// NetsBlox API
#[derive(Clone, Debug, PartialEq, Eq, Hash)]
pub struct ProjectId(pub String);

#[derive(Clone, Debug, PartialEq, Eq, Hash)]
pub struct RoleId(pub String);

#[derive(Clone, Debug)]
pub enum SaveState {
    Created,
    Transient,
    Broken,
    Saved,
}

#[derive(Clone, Debug)]
pub struct RoleMetadata {
    pub name: String,
    pub code: String,
    pub media: String,
}

#[derive(Debug, Clone, PartialEq, Eq)]
pub enum PublishState {
    Private,
    ApprovalDenied,
    PendingApproval,
    Public,
}

#[derive(Debug, Clone)]
pub struct RoleData {
    pub name: String,
    pub code: String,
    pub media: String,
}

impl RoleData {
    /// The XML element of a role: its name with quotes escaped, then its code and media.
    pub open spec fn spec_xml(&self) -> Seq<char> {
        "<role name=\""@ + escape_quotes(self.name@) + "\">"@ + self.code@ + self.media@
            + "</role>"@
    }

    pub fn to_xml(&self) -> (xml: String)
        ensures
            xml@ == self.spec_xml(),
    {
        let mut xml = String::new();
        xml.append("<role name=\"");
        let name = escaped(self.name.as_str());
        xml.append(name.as_str());
        xml.append("\">");
        xml.append(self.code.as_str());
        xml.append(self.media.as_str());
        xml.append("</role>");
        xml
    }
}

pub struct Project {
    pub id: ProjectId,
    pub owner: String,
    pub name: String,
    pub updated: std::time::SystemTime,
    pub state: PublishState,
    pub collaborators: Vec<String>,
    pub origin_time: std::time::SystemTime,
    pub save_state: SaveState,
    /// The project's roles, each under its id, in the order in which they are walked.
    pub roles: Vec<(RoleId, RoleData)>,
}

/// The XML of each role, in order.
pub open spec fn roles_xml(roles: Seq<(RoleId, RoleData)>) -> Seq<Seq<char>> {
    roles.map_values(|r: (RoleId, RoleData)| r.1.spec_xml())
}

impl Project {
    /// The XML of a project: a `room` element naming the project and the NetsBlox
    /// app, holding its roles' elements separated by spaces.
    pub open spec fn spec_xml(&self) -> Seq<char> {
        "<room name=\""@ + self.name@ + "\" app=\""@ + "NetsBlox"@ + "\">"@ + join_spaced(
            roles_xml(self.roles@),
        ) + "</room>"@
    }

    pub fn to_xml(&self) -> (xml: String)
        ensures
            xml@ == self.spec_xml(),
    {
        let mut role_str = String::new();
        let mut i: usize = 0;
        while i < self.roles.len()
            invariant
                i <= self.roles.len(),
                role_str@ == join_spaced(roles_xml(self.roles@).take(i as int)),
            decreases self.roles.len() - i,
        {
            let part = self.roles[i].1.to_xml();
            if i > 0 {
                role_str.append(" ");
            }
            role_str.append(part.as_str());
            proof {
                let parts = roles_xml(self.roles@);
                reveal_strlit(" ");
                assert(parts[i as int] == part@);
                assert(parts.take(i + 1).drop_last() =~= parts.take(i as int));
                if i == 0 {
                    assert(parts.take(1) =~= seq![parts[0]]);
                }
            }
            i += 1;
        }
        assert(roles_xml(self.roles@).take(self.roles.len() as int) =~= roles_xml(self.roles@));
        let mut xml = String::new();
        xml.append("<room name=\"");
        xml.append(self.name.as_str());
        xml.append("\" app=\"");
        xml.append("NetsBlox");
        xml.append("\">");
        xml.append(role_str.as_str());
        xml.append("</room>");
        xml
    }
}

} // verus!
