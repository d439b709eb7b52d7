//! Collected findings of a content validation run.

use vstd::prelude::*;

use crate::encoding::{nat_text, push_nat};
use crate::roles::Role;
use crate::scripts::Step;

verus! {

#[derive(Debug)]
pub struct ValidationReport {
    pub valid: bool,
    pub errors: Vec<String>,
    pub warnings: Vec<String>,
    pub scripts_count: usize,
    pub roles_count: usize,
}

impl ValidationReport {
    /// A report without findings.
    pub fn new() -> (r: Self)
        ensures
            r.valid,
            r.errors@.len() == 0,
            r.warnings@.len() == 0,
            r.scripts_count == 0,
            r.roles_count == 0,
    {
        ValidationReport {
            valid: true,
            errors: Vec::new(),
            warnings: Vec::new(),
            scripts_count: 0,
            roles_count: 0,
        }
    }

    /// Records an error; the report is then invalid.
    pub fn add_error(&mut self, msg: String)
        ensures
            !final(self).valid,
            final(self).errors@ == old(self).errors@.push(msg),
            final(self).warnings@ == old(self).warnings@,
            final(self).scripts_count == old(self).scripts_count,
            final(self).roles_count == old(self).roles_count,
    {
        self.valid = false;
        self.errors.push(msg);
    }

    /// Records a warning; validity is unchanged.
    pub fn add_warning(&mut self, msg: String)
        ensures
            final(self).valid == old(self).valid,
            final(self).errors@ == old(self).errors@,
            final(self).warnings@ == old(self).warnings@.push(msg),
            final(self).scripts_count == old(self).scripts_count,
            final(self).roles_count == old(self).roles_count,
    {
        self.warnings.push(msg);
    }
}

impl Default for ValidationReport {
    fn default() -> (r: Self)
        ensures
            r.valid,
            r.errors@.len() == 0,
            r.warnings@.len() == 0,
    {
        Self::new()
    }
}

} // verus!

verus! {

/// What validation reads of a script: its identifier, title and steps.
#[derive(Debug, Clone)]
pub struct ScriptOutline {
    pub id: String,
    pub title: String,
    pub steps: Vec<Step>,
}

pub open spec fn strs_view(v: Seq<String>) -> Seq<Seq<char>> {
    v.map_values(|s: String| s@)
}

pub open spec fn one_if(c: bool, m: Seq<char>) -> Seq<Seq<char>> {
    if c {
        seq![m]
    } else {
        Seq::empty()
    }
}

pub open spec fn script_errors(s: ScriptOutline) -> Seq<Seq<char>> {
    one_if(s.id@.len() == 0, "Script has empty ID"@) + one_if(
        s.title@.len() == 0,
        "Script '"@ + s.id@ + "' has empty title"@,
    ) + one_if(s.steps@.len() == 0, "Script '"@ + s.id@ + "' has no steps"@)
}

pub open spec fn step_warnings(id: Seq<char>, steps: Seq<Step>) -> Seq<Seq<char>>
    decreases steps.len(),
{
    if steps.len() == 0 {
        Seq::empty()
    } else {
        let i = (steps.len() - 1) as nat;
        let st = steps.last();
        step_warnings(id, steps.drop_last()) + one_if(
            st.content matches Some(c) && c@.len() == 0,
            "Script '"@ + id + "' step "@ + nat_text(i) + " has empty content"@,
        ) + one_if(
            st.prompt@.len() == 0,
            "Script '"@ + id + "' step "@ + nat_text(i) + " has empty prompt"@,
        )
    }
}

pub open spec fn role_errors(r: Role) -> Seq<Seq<char>> {
    one_if(r.id@.len() == 0, "Role has empty ID"@) + one_if(
        r.title@.len() == 0,
        "Role '"@ + r.id@ + "' has empty title"@,
    ) + one_if(r.scenario_ids@.len() == 0, "Role '"@ + r.id@ + "' has no scenarios"@)
}

pub open spec fn role_warnings(r: Role) -> Seq<Seq<char>> {
    one_if(r.description@.len() == 0, "Role '"@ + r.id@ + "' has empty description"@)
}

/// `part` occurs in `whole` as a contiguous run.
pub open spec fn occurs_in(part: Seq<char>, whole: Seq<char>) -> bool {
    exists|k: int|
        0 <= k <= whole.len() - part.len() && #[trigger] whole.subrange(k, k + part.len()) == part
}

/// Some script is named by `scenario_id`: equal to its identifier or
/// holding it.
pub open spec fn scenario_known(scripts: Seq<ScriptOutline>, scenario_id: Seq<char>) -> bool {
    exists|i: int|
        0 <= i < scripts.len() && (scripts[i].id@ == scenario_id || occurs_in(
            scripts[i].id@,
            scenario_id,
        ))
}

pub open spec fn link_warnings(
    scripts: Seq<ScriptOutline>,
    role_id: Seq<char>,
    scenario_ids: Seq<String>,
) -> Seq<Seq<char>>
    decreases scenario_ids.len(),
{
    if scenario_ids.len() == 0 {
        Seq::empty()
    } else {
        let sid = scenario_ids.last()@;
        link_warnings(scripts, role_id, scenario_ids.drop_last()) + one_if(
            !scenario_known(scripts, sid),
            "Role '"@ + role_id + "' references scenario '"@ + sid + "' which was not found"@,
        )
    }
}

pub open spec fn all_script_errors(scripts: Seq<ScriptOutline>) -> Seq<Seq<char>>
    decreases scripts.len(),
{
    if scripts.len() == 0 {
        Seq::empty()
    } else {
        all_script_errors(scripts.drop_last()) + script_errors(scripts.last())
    }
}

pub open spec fn all_step_warnings(scripts: Seq<ScriptOutline>) -> Seq<Seq<char>>
    decreases scripts.len(),
{
    if scripts.len() == 0 {
        Seq::empty()
    } else {
        all_step_warnings(scripts.drop_last()) + step_warnings(
            scripts.last().id@,
            scripts.last().steps@,
        )
    }
}

pub open spec fn all_role_errors(roles: Seq<Role>) -> Seq<Seq<char>>
    decreases roles.len(),
{
    if roles.len() == 0 {
        Seq::empty()
    } else {
        all_role_errors(roles.drop_last()) + role_errors(roles.last())
    }
}

pub open spec fn all_role_warnings(roles: Seq<Role>) -> Seq<Seq<char>>
    decreases roles.len(),
{
    if roles.len() == 0 {
        Seq::empty()
    } else {
        all_role_warnings(roles.drop_last()) + role_warnings(roles.last())
    }
}

pub open spec fn all_link_warnings(scripts: Seq<ScriptOutline>, roles: Seq<Role>) -> Seq<
    Seq<char>,
>
    decreases roles.len(),
{
    if roles.len() == 0 {
        Seq::empty()
    } else {
        all_link_warnings(scripts, roles.drop_last()) + link_warnings(
            scripts,
            roles.last().id@,
            roles.last().scenario_ids@,
        )
    }
}

fn message3(a: &str, b: &str, c: &str) -> (r: String)
    ensures
        r@ == a@ + b@ + c@,
{
    let mut m = String::new();
    m.append(a);
    m.append(b);
    m.append(c);
    assert(m@ =~= a@ + b@ + c@);
    m
}

fn message2(a: &str, b: &str) -> (r: String)
    ensures
        r@ == a@ + b@,
{
    let mut m = String::new();
    m.append(a);
    m.append(b);
    assert(m@ =~= a@ + b@);
    m
}

/// Whether `part` occurs in `whole`.
pub fn occurs(part: &str, whole: &str) -> (r: bool)
    ensures
        r == occurs_in(part@, whole@),
{
    let p = part.to_owned();
    let w = whole.to_owned();
    let plen = p.as_str().unicode_len();
    let wlen = w.as_str().unicode_len();
    if plen > wlen {
        return false;
    }
    let mut k: usize = 0;
    while k <= wlen - plen
        invariant
            plen == part@.len(),
            wlen == whole@.len(),
            p@ == part@,
            w@ == whole@,
            plen <= wlen,
            0 <= k <= wlen - plen + 1,
            forall|c: int| 0 <= c < k ==> #[trigger] whole@.subrange(c, c + part@.len()) != part@,
        decreases wlen - plen + 1 - k,
    {
        let mut j: usize = 0;
        let mut same = true;
        while j < plen
            invariant
                plen == part@.len(),
                wlen == whole@.len(),
                p@ == part@,
                w@ == whole@,
                k + plen <= wlen,
                0 <= j <= plen,
                same <==> forall|x: int| 0 <= x < j ==> whole@[k + x] == part@[x],
            decreases plen - j,
        {
            if w.as_str().get_char(k + j) != p.as_str().get_char(j) {
                same = false;
            }
            j += 1;
        }
        if same {
            assert(whole@.subrange(k as int, k + part@.len()) =~= part@);
            return true;
        }
        assert(whole@.subrange(k as int, k + part@.len()) != part@) by {
            let x = choose|x: int| 0 <= x < plen && whole@[k + x] != part@[x];
            assert(whole@.subrange(k as int, k + part@.len())[x] == whole@[k + x]);
        }
        k += 1;
    }
    false
}

/// Scripts and roles to validate, each kept once per identifier.
pub struct ContentValidator {
    scripts: Vec<ScriptOutline>,
    roles: Vec<Role>,
}

pub struct ContentView {
    pub scripts: Seq<ScriptOutline>,
    pub roles: Seq<Role>,
}

impl View for ContentValidator {
    type V = ContentView;

    closed spec fn view(&self) -> ContentView {
        ContentView { scripts: self.scripts@, roles: self.roles@ }
    }
}

/// `s` with `x` in place of the script of the same identifier, or appended.
pub open spec fn put_script(s: Seq<ScriptOutline>, x: ScriptOutline) -> Seq<ScriptOutline> {
    if exists|i: int| 0 <= i < s.len() && s[i].id@ == x.id@ {
        let i = choose|i: int| 0 <= i < s.len() && s[i].id@ == x.id@;
        s.update(i, x)
    } else {
        s.push(x)
    }
}

/// `s` with `x` in place of the role of the same identifier, or appended.
pub open spec fn put_role(s: Seq<Role>, x: Role) -> Seq<Role> {
    if exists|i: int| 0 <= i < s.len() && s[i].id@ == x.id@ {
        let i = choose|i: int| 0 <= i < s.len() && s[i].id@ == x.id@;
        s.update(i, x)
    } else {
        s.push(x)
    }
}

pub open spec fn scripts_distinct(s: Seq<ScriptOutline>) -> bool {
    forall|i: int, j: int| 0 <= i < j < s.len() ==> s[i].id@ != s[j].id@
}

pub open spec fn roles_distinct(s: Seq<Role>) -> bool {
    forall|i: int, j: int| 0 <= i < j < s.len() ==> s[i].id@ != s[j].id@
}

impl ContentValidator {
    pub open spec fn wf(&self) -> bool {
        scripts_distinct(self@.scripts) && roles_distinct(self@.roles)
    }

    /// A validator with no content.
    pub fn new() -> (r: Self)
        ensures
            r.wf(),
            r@.scripts.len() == 0,
            r@.roles.len() == 0,
    {
        ContentValidator { scripts: Vec::new(), roles: Vec::new() }
    }

    /// Adds a script, replacing the one with the same identifier.
    pub fn add_script(&mut self, script: ScriptOutline)
        requires
            old(self).wf(),
        ensures
            final(self).wf(),
            final(self)@.scripts == put_script(old(self)@.scripts, script),
            final(self)@.roles == old(self)@.roles,
    {
        let ghost before = self.scripts@;
        let mut i: usize = 0;
        while i < self.scripts.len()
            invariant
                0 <= i <= self.scripts.len(),
                self.scripts@ == before,
                before == old(self).scripts@,
                self.roles@ == old(self).roles@,
                scripts_distinct(before),
                roles_distinct(self.roles@),
                forall|j: int| 0 <= j < i ==> before[j].id@ != script.id@,
            decreases self.scripts.len() - i,
        {
            if self.scripts[i].id == script.id {
                proof {
                    let c = choose|c: int| 0 <= c < before.len() && before[c].id@ == script.id@;
                    assert(c == i as int);
                    assert(put_script(before, script) == before.update(i as int, script));
                }
                self.scripts.set(i, script);
                proof {
                    assert(self.scripts@ == put_script(before, script));
                    assert forall|a: int, b: int| 0 <= a < b < self.scripts@.len() implies self.scripts@[a].id@
                        != self.scripts@[b].id@ by {
                        assert(self.scripts@[a].id@ == before[a].id@);
                        assert(self.scripts@[b].id@ == before[b].id@);
                    }
                }
                return;
            }
            i += 1;
        }
        self.scripts.push(script);
        proof {
            assert forall|a: int, b: int| 0 <= a < b < self.scripts@.len() implies self.scripts@[a].id@
                != self.scripts@[b].id@ by {
                assert(self.scripts@[a] == before[a]);
                if b < before.len() {
                    assert(self.scripts@[b] == before[b]);
                }
            }
        }
    }

    /// Adds a role, replacing the one with the same identifier.
    pub fn add_role(&mut self, role: Role)
        requires
            old(self).wf(),
        ensures
            final(self).wf(),
            final(self)@.roles == put_role(old(self)@.roles, role),
            final(self)@.scripts == old(self)@.scripts,
    {
        let ghost before = self.roles@;
        let mut i: usize = 0;
        while i < self.roles.len()
            invariant
                0 <= i <= self.roles.len(),
                self.roles@ == before,
                before == old(self).roles@,
                self.scripts@ == old(self).scripts@,
                roles_distinct(before),
                scripts_distinct(self.scripts@),
                forall|j: int| 0 <= j < i ==> before[j].id@ != role.id@,
            decreases self.roles.len() - i,
        {
            if self.roles[i].id == role.id {
                proof {
                    let c = choose|c: int| 0 <= c < before.len() && before[c].id@ == role.id@;
                    assert(c == i as int);
                    assert(put_role(before, role) == before.update(i as int, role));
                }
                self.roles.set(i, role);
                proof {
                    assert(self.roles@ == put_role(before, role));
                    assert forall|a: int, b: int| 0 <= a < b < self.roles@.len() implies self.roles@[a].id@
                        != self.roles@[b].id@ by {
                        assert(self.roles@[a].id@ == before[a].id@);
                        assert(self.roles@[b].id@ == before[b].id@);
                    }
                }
                return;
            }
            i += 1;
        }
        self.roles.push(role);
        proof {
            assert forall|a: int, b: int| 0 <= a < b < self.roles@.len() implies self.roles@[a].id@
                != self.roles@[b].id@ by {
                assert(self.roles@[a] == before[a]);
                if b < before.len() {
                    assert(self.roles@[b] == before[b]);
                }
            }
        }
    }

    /// The scripts, in the order they were first added.
    pub fn scripts(&self) -> (r: &Vec<ScriptOutline>)
        ensures
            r@ == self@.scripts,
    {
        &self.scripts
    }

    /// The roles, in the order they were first added.
    pub fn roles(&self) -> (r: &Vec<Role>)
        ensures
            r@ == self@.roles,
    {
        &self.roles
    }

    fn validate_script(script: &ScriptOutline, report: &mut ValidationReport)
        ensures
            strs_view(final(report).errors@) == strs_view(old(report).errors@) + script_errors(*script),
            strs_view(final(report).warnings@) == strs_view(old(report).warnings@) + step_warnings(
                script.id@,
                script.steps@,
            ),
            final(report).valid == (old(report).valid && script_errors(*script).len() == 0),
            final(report).scripts_count == old(report).scripts_count,
            final(report).roles_count == old(report).roles_count,
    {
        let ghost e0 = strs_view(report.errors@);
        let ghost w0 = strs_view(report.warnings@);
        let ghost v0 = report.valid;
        if script.id.as_str().unicode_len() == 0 {
            report.add_error("Script has empty ID".to_owned());
        }
        let ghost e1 = strs_view(report.errors@);
        assert(e1 =~= e0 + one_if(script.id@.len() == 0, "Script has empty ID"@));
        if script.title.as_str().unicode_len() == 0 {
            report.add_error(message3("Script '", script.id.as_str(), "' has empty title"));
        }
        let ghost e2 = strs_view(report.errors@);
        assert(e2 =~= e1 + one_if(
            script.title@.len() == 0,
            "Script '"@ + script.id@ + "' has empty title"@,
        ));
        if script.steps.len() == 0 {
            report.add_error(message3("Script '", script.id.as_str(), "' has no steps"));
        }
        assert(strs_view(report.errors@) =~= e2 + one_if(
            script.steps@.len() == 0,
            "Script '"@ + script.id@ + "' has no steps"@,
        ));
        assert(strs_view(report.errors@) =~= e0 + script_errors(*script));
        assert(report.warnings@ == old(report).warnings@);
        let mut i: usize = 0;
        while i < script.steps.len()
            invariant
                0 <= i <= script.steps.len(),
                strs_view(report.warnings@) == w0 + step_warnings(
                    script.id@,
                    script.steps@.subrange(0, i as int),
                ),
                strs_view(report.errors@) == e0 + script_errors(*script),
                report.valid == (v0 && script_errors(*script).len() == 0),
                report.scripts_count == old(report).scripts_count,
                report.roles_count == old(report).roles_count,
            decreases script.steps.len() - i,
        {
            let ghost wpre = strs_view(report.warnings@);
            let step = &script.steps[i];
            let mut head = message3("Script '", script.id.as_str(), "' step ");
            push_nat(&mut head, i as u64);
            let empty_content = match &step.content {
                Some(c) => c.as_str().unicode_len() == 0,
                None => false,
            };
            if empty_content {
                report.add_warning(message2(head.as_str(), " has empty content"));
            }
            let ghost wmid = strs_view(report.warnings@);
            if step.prompt.as_str().unicode_len() == 0 {
                report.add_warning(message2(head.as_str(), " has empty prompt"));
            }
            proof {
                let cur = script.steps@.subrange(0, i + 1);
                assert(cur.drop_last() =~= script.steps@.subrange(0, i as int));
                assert(cur.last() == script.steps@[i as int]);
                let prefix = "Script '"@ + script.id@ + "' step "@ + nat_text(i as nat);
                assert(head@ == prefix);
                assert(wmid =~= wpre + one_if(
                    step.content matches Some(c) && c@.len() == 0,
                    prefix + " has empty content"@,
                ));
                assert(strs_view(report.warnings@) =~= wmid + one_if(
                    step.prompt@.len() == 0,
                    prefix + " has empty prompt"@,
                ));
                assert(strs_view(report.warnings@) =~= w0 + step_warnings(script.id@, cur));
            }
            i += 1;
        }
        assert(script.steps@.subrange(0, i as int) =~= script.steps@);
    }

    fn validate_role(role: &Role, report: &mut ValidationReport)
        ensures
            strs_view(final(report).errors@) == strs_view(old(report).errors@) + role_errors(*role),
            strs_view(final(report).warnings@) == strs_view(old(report).warnings@) + role_warnings(*role),
            final(report).valid == (old(report).valid && role_errors(*role).len() == 0),
            final(report).scripts_count == old(report).scripts_count,
            final(report).roles_count == old(report).roles_count,
    {
        let ghost e0 = strs_view(report.errors@);
        let ghost w0 = strs_view(report.warnings@);
        if role.id.as_str().unicode_len() == 0 {
            report.add_error("Role has empty ID".to_owned());
        }
        let ghost e1 = strs_view(report.errors@);
        assert(e1 =~= e0 + one_if(role.id@.len() == 0, "Role has empty ID"@));
        if role.title.as_str().unicode_len() == 0 {
            report.add_error(message3("Role '", role.id.as_str(), "' has empty title"));
        }
        let ghost e2 = strs_view(report.errors@);
        assert(e2 =~= e1 + one_if(role.title@.len() == 0, "Role '"@ + role.id@ + "' has empty title"@));
        if role.description.as_str().unicode_len() == 0 {
            report.add_warning(message3("Role '", role.id.as_str(), "' has empty description"));
        }
        assert(strs_view(report.warnings@) =~= w0 + role_warnings(*role));
        assert(strs_view(report.errors@) == e2);
        if role.scenario_ids.len() == 0 {
            report.add_error(message3("Role '", role.id.as_str(), "' has no scenarios"));
        }
        assert(strs_view(report.errors@) =~= e2 + one_if(
            role.scenario_ids@.len() == 0,
            "Role '"@ + role.id@ + "' has no scenarios"@,
        ));
        assert(strs_view(report.errors@) =~= e0 + role_errors(*role));
    }

    fn scenario_exists(&self, scenario_id: &String) -> (r: bool)
        ensures
            r == scenario_known(self@.scripts, scenario_id@),
    {
        let mut i: usize = 0;
        while i < self.scripts.len()
            invariant
                0 <= i <= self.scripts.len(),
                forall|j: int|
                    0 <= j < i ==> !(self.scripts@[j].id@ == scenario_id@ || occurs_in(
                        self.scripts@[j].id@,
                        scenario_id@,
                    )),
            decreases self.scripts.len() - i,
        {
            if self.scripts[i].id == *scenario_id || occurs(
                self.scripts[i].id.as_str(),
                scenario_id.as_str(),
            ) {
                return true;
            }
            i += 1;
        }
        false
    }

    fn validate_role_scenario_links(&self, report: &mut ValidationReport)
        ensures
            strs_view(final(report).errors@) == strs_view(old(report).errors@),
            strs_view(final(report).warnings@) == strs_view(old(report).warnings@)
                + all_link_warnings(self@.scripts, self@.roles),
            final(report).valid == old(report).valid,
            final(report).scripts_count == old(report).scripts_count,
            final(report).roles_count == old(report).roles_count,
    {
        let ghost w0 = strs_view(report.warnings@);
        let mut r: usize = 0;
        while r < self.roles.len()
            invariant
                0 <= r <= self.roles.len(),
                strs_view(report.warnings@) == w0 + all_link_warnings(
                    self@.scripts,
                    self@.roles.subrange(0, r as int),
                ),
                strs_view(report.errors@) == strs_view(old(report).errors@),
                report.valid == old(report).valid,
                report.scripts_count == old(report).scripts_count,
                report.roles_count == old(report).roles_count,
            decreases self.roles.len() - r,
        {
            let role = &self.roles[r];
            let ghost wr = strs_view(report.warnings@);
            let mut k: usize = 0;
            while k < role.scenario_ids.len()
                invariant
                    0 <= k <= role.scenario_ids.len(),
                    r < self.roles.len(),
                    role == &self.roles@[r as int],
                    strs_view(report.warnings@) == wr + link_warnings(
                        self@.scripts,
                        role.id@,
                        role.scenario_ids@.subrange(0, k as int),
                    ),
                    strs_view(report.errors@) == strs_view(old(report).errors@),
                    report.valid == old(report).valid,
                    report.scripts_count == old(report).scripts_count,
                    report.roles_count == old(report).roles_count,
                decreases role.scenario_ids.len() - k,
            {
                let ghost wk = strs_view(report.warnings@);
                let sid = &role.scenario_ids[k];
                let known = self.scenario_exists(sid);
                if !known {
                    let mut m = message3("Role '", role.id.as_str(), "' references scenario '");
                    m.append(sid.as_str());
                    m.append("' which was not found");
                    report.add_warning(m);
                }
                proof {
                    let cur = role.scenario_ids@.subrange(0, k + 1);
                    assert(cur.drop_last() =~= role.scenario_ids@.subrange(0, k as int));
                    assert(cur.last() == role.scenario_ids@[k as int]);
                    assert(strs_view(report.warnings@) =~= wk + one_if(
                        !scenario_known(self@.scripts, sid@),
                        "Role '"@ + role.id@ + "' references scenario '"@ + sid@
                            + "' which was not found"@,
                    ));
                    assert(strs_view(report.warnings@) =~= wr + link_warnings(
                        self@.scripts,
                        role.id@,
                        cur,
                    ));
                }
                k += 1;
            }
            proof {
                assert(role.scenario_ids@.subrange(0, k as int) =~= role.scenario_ids@);
                let cur = self@.roles.subrange(0, r + 1);
                assert(cur.drop_last() =~= self@.roles.subrange(0, r as int));
                assert(cur.last() == self@.roles[r as int]);
                assert(strs_view(report.warnings@) =~= w0 + all_link_warnings(self@.scripts, cur));
            }
            r += 1;
        }
        assert(self@.roles.subrange(0, r as int) =~= self@.roles);
    }

    /// Checks every script and role, then that each scenario a role names
    /// is a known script. Errors make the report invalid; warnings do not.
    pub fn validate(&self) -> (r: ValidationReport)
        ensures
            r.scripts_count == self@.scripts.len(),
            r.roles_count == self@.roles.len(),
            strs_view(r.errors@) == all_script_errors(self@.scripts) + all_role_errors(self@.roles),
            strs_view(r.warnings@) == all_step_warnings(self@.scripts) + all_role_warnings(self@.roles)
                + all_link_warnings(self@.scripts, self@.roles),
            r.valid == (r.errors@.len() == 0),
    {
        let mut report = ValidationReport::new();
        report.scripts_count = self.scripts.len();
        report.roles_count = self.roles.len();
        assert(strs_view(report.errors@) =~= Seq::<Seq<char>>::empty());
        assert(strs_view(report.warnings@) =~= Seq::<Seq<char>>::empty());
        let mut i: usize = 0;
        while i < self.scripts.len()
            invariant
                0 <= i <= self.scripts.len(),
                report.scripts_count == self@.scripts.len(),
                report.roles_count == self@.roles.len(),
                strs_view(report.errors@) == all_script_errors(self@.scripts.subrange(0, i as int)),
                strs_view(report.warnings@) == all_step_warnings(self@.scripts.subrange(0, i as int)),
                report.valid == (report.errors@.len() == 0),
            decreases self.scripts.len() - i,
        {
            Self::validate_script(&self.scripts[i], &mut report);
            proof {
                let cur = self@.scripts.subrange(0, i + 1);
                assert(cur.drop_last() =~= self@.scripts.subrange(0, i as int));
                assert(cur.last() == self@.scripts[i as int]);
                assert(strs_view(report.errors@) =~= all_script_errors(cur));
                assert(strs_view(report.warnings@) =~= all_step_warnings(cur));
            }
            i += 1;
        }
        assert(self@.scripts.subrange(0, i as int) =~= self@.scripts);
        let ghost es = strs_view(report.errors@);
        let ghost ws = strs_view(report.warnings@);
        let mut j: usize = 0;
        while j < self.roles.len()
            invariant
                0 <= j <= self.roles.len(),
                report.scripts_count == self@.scripts.len(),
                report.roles_count == self@.roles.len(),
                strs_view(report.errors@) == es + all_role_errors(self@.roles.subrange(0, j as int)),
                strs_view(report.warnings@) == ws + all_role_warnings(self@.roles.subrange(0, j as int)),
                report.valid == (report.errors@.len() == 0),
            decreases self.roles.len() - j,
        {
            Self::validate_role(&self.roles[j], &mut report);
            proof {
                let cur = self@.roles.subrange(0, j + 1);
                assert(cur.drop_last() =~= self@.roles.subrange(0, j as int));
                assert(cur.last() == self@.roles[j as int]);
                assert(strs_view(report.errors@) =~= es + all_role_errors(cur));
                assert(strs_view(report.warnings@) =~= ws + all_role_warnings(cur));
            }
            j += 1;
        }
        assert(self@.roles.subrange(0, j as int) =~= self@.roles);
        self.validate_role_scenario_links(&mut report);
        assert(strs_view(report.warnings@) =~= all_step_warnings(self@.scripts) + all_role_warnings(self@.roles)
            + all_link_warnings(self@.scripts, self@.roles));
        report
    }
}

impl Default for ContentValidator {
    fn default() -> (r: Self)
        ensures
            r.wf(),
            r@.scripts.len() == 0,
            r@.roles.len() == 0,
    {
        Self::new()
    }
}

} // verus!
