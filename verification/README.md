# wsl_hello

Signing in to WSL with Windows Hello. A PAM module sends a fresh challenge to a program on the
Windows side, which asks for a Windows Hello gesture and signs the challenge with the user's
credential; the module grants access where the signature is good.

- `src/` decides. It is verified with Verus: the session of an authentication (`auth`, `auth_laws`), the
  creation of a credential (`bridge`), challenges and paths (`challenge`), the settings file
  (`config`), errors and their messages (`error`), PEM documents (`pem`), keys and signatures
  (`signature`), and the text functions beneath them (`text`). The proof functions whose names
  begin with `law_` state what holds of the library as a whole.
- `app/` acts: it calls PAM, reads and writes files, runs the Windows program, and on Windows
  talks to the credential manager.
- `tests/` runs the library, with the real cryptography.
