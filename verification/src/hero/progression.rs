use crate::error::LogicError;
use vstd::prelude::*;

verus! {

/// The skill type of a hero's ex skill, the only one that is upgraded.
pub const EX_SKILL_TYPE: i32 = 3;

/// The highest ex-skill level.
pub const EX_SKILL_MAX_LEVEL: i32 = 5;

/// Upgrading a hero's ex skill from `current_level` by `levels`: refused for
/// any other skill type and at the highest level; else the levels gained (and
/// hero copies used): those asked, at least one, at most those left.
pub fn ex_skill_consume(skill_type: i32, current_level: i32, levels: i32) -> (res: Result<i32, LogicError>)
    requires
        skill_type == EX_SKILL_TYPE && current_level < EX_SKILL_MAX_LEVEL ==> current_level > i32::MIN + EX_SKILL_MAX_LEVEL,
    ensures
        res == if skill_type != EX_SKILL_TYPE || current_level >= EX_SKILL_MAX_LEVEL {
            Err::<i32, LogicError>(LogicError::InvalidRequest)
        } else {
            let asked: int = if levels < 1 { 1 } else { levels as int };
            let left: int = EX_SKILL_MAX_LEVEL - current_level;
            Ok((if asked < left { asked } else { left }) as i32)
        },
{
    if skill_type != EX_SKILL_TYPE {
        return Err(LogicError::InvalidRequest);
    }
    if current_level >= EX_SKILL_MAX_LEVEL {
        return Err(LogicError::InvalidRequest);
    }
    let asked = if levels < 1 { 1 } else { levels };
    let left = EX_SKILL_MAX_LEVEL - current_level;
    Ok(if asked < left { asked } else { left })
}

/// Raising hero `hero_id` to level `new_level` is asked for a level the
/// character level table has (`levels` holds its `(hero, level)` rows); any
/// other level is refused.
pub fn level_up_check(levels: &[(i32, i32)], hero_id: i32, new_level: i32) -> (res: Result<i32, LogicError>)
    ensures
        res == if exists|k: int| 0 <= k < levels@.len() && #[trigger] levels@[k] == (hero_id, new_level) {
            Ok::<i32, LogicError>(new_level)
        } else {
            Err(LogicError::InvalidRequest)
        },
{
    let mut i: usize = 0;
    while i < levels.len()
        invariant
            i <= levels@.len(),
            forall|k: int| 0 <= k < i ==> #[trigger] levels@[k] != (hero_id, new_level),
        decreases levels.len() - i,
    {
        if levels[i].0 == hero_id && levels[i].1 == new_level {
            assert(levels@[i as int] == (hero_id, new_level));
            return Ok(new_level);
        }
        i = i + 1;
    }
    Err(LogicError::InvalidRequest)
}

} // verus!
