//! The license document: the static license prose and the generated file
//! that prefixes it with a timestamp header. The file is written once and
//! never read back by the program; acceptance is tracked only by the
//! `eula_acceptance` flag in the configuration.

use vstd::prelude::*;

verus! {

/// The static license prose, as a mathematical value.
pub open spec fn spec_eula_text() -> Seq<char> {
    r#"
License & Terms of Use
----------------------
This software, Archiva, is licensed under the Apache License, Version 2.0. 
By using Archiva, you agree to the following:

1. License
----------
- Archiva is Apache-2.0 licensed; you may use, modify, and distribute this software freely.
- However, redistributions MUST include this EULA, and the Apache-2.0 notice.

2. User Responsibility
----------------------
- The user is solely responsible for their data and backups
- Archiva developers are NOT liable for data loss, corruption, or any damages arising from use.
- The user may not use Archiva to store illegal, harmful, or copyrighted material without permission.

4. Contributions & Modifictions
-------------------------------
- Contributions to Archiva are governed by the Apache-2.0 license.
- Modifications made may be redistributed under Apache-2.0, only with proper attribution.

5. Disclaimer
-------------
- Archiva is provided "AS IS", without warranty of any kind.
- The author explicitly disclaims all implied warrienties, including merchantability or fitness for a particular purpose.

6. Termination
--------------
- This EULA terminates automatically if you violate any terms above.
- Upon termination, The user must cease use of Archiva, and delete all copies from your systems.

7. Contact & Notices
--------------------
- For questions, bug reports, or contributions, contact: griffindalby7@outlook.com
"#@
}

/// The static license prose handed to the validator and the operator.
pub fn eula_text() -> (r: String)
    ensures
        r@ == spec_eula_text(),
{
    String::from_str(
        r#"
License & Terms of Use
----------------------
This software, Archiva, is licensed under the Apache License, Version 2.0. 
By using Archiva, you agree to the following:

1. License
----------
- Archiva is Apache-2.0 licensed; you may use, modify, and distribute this software freely.
- However, redistributions MUST include this EULA, and the Apache-2.0 notice.

2. User Responsibility
----------------------
- The user is solely responsible for their data and backups
- Archiva developers are NOT liable for data loss, corruption, or any damages arising from use.
- The user may not use Archiva to store illegal, harmful, or copyrighted material without permission.

4. Contributions & Modifictions
-------------------------------
- Contributions to Archiva are governed by the Apache-2.0 license.
- Modifications made may be redistributed under Apache-2.0, only with proper attribution.

5. Disclaimer
-------------
- Archiva is provided "AS IS", without warranty of any kind.
- The author explicitly disclaims all implied warrienties, including merchantability or fitness for a particular purpose.

6. Termination
--------------
- This EULA terminates automatically if you violate any terms above.
- Upon termination, The user must cease use of Archiva, and delete all copies from your systems.

7. Contact & Notices
--------------------
- For questions, bug reports, or contributions, contact: griffindalby7@outlook.com
"#,
    )
}

/// The timestamp header above the license prose.
pub open spec fn spec_eula_header(ts: Seq<char>) -> Seq<char> {
    "\n# =================================================\n# Archiva End User License Agreement (EULA)\n# Generated alongside config.yml @ "@
        + ts + "\n# =================================================\n"@
}

/// The whole generated `eula.txt` document for a given timestamp.
pub open spec fn spec_eula_document(ts: Seq<char>) -> Seq<char> {
    spec_eula_header(ts) + spec_eula_text()
}

/// The document written to disk when no license file exists yet: a header
/// carrying the generation timestamp, then the license prose.
pub fn eula_document(timestamp: &str) -> (r: String)
    ensures
        r@ == spec_eula_document(timestamp@),
{
    let mut out = String::from_str(
        "\n# =================================================\n# Archiva End User License Agreement (EULA)\n# Generated alongside config.yml @ ",
    );
    out.append(timestamp);
    out.append("\n# =================================================\n");
    let text = eula_text();
    out.append(text.as_str());
    proof {
        assert(out@ =~= spec_eula_document(timestamp@));
    }
    out
}

} // verus!
