# ans_csr

Builds the certificate signing requests that an agent of the Agent Name Service
registers with: one for its TLS server certificate and one for its mTLS identity
certificate. Each comes with a fresh RSA-2048 key pair and exactly the subject,
alternative names and key usages that its certificate calls for.

The library is verified with Verus. What is proved:

- hosts, versions and ANS names are parsed to exactly the values, or exactly the
  errors, that their grammars give, and are read back from their text;
- a request asks for what its kind calls for and nothing else, and a builder
  fails only if the key cannot be generated or the request not be signed;
- the private key that comes with a request is an RSA-2048 key, the one whose
  public half the request carries, and the request is signed with it using
  SHA-256.

What is taken for granted of `rcgen` and `secrecy` is stated in `src/pki.rs`.

- `src/`: the library
- `tests/`: its tests, which parse the requests with `x509-parser`
- `app/`: the errors of the library as `std::error::Error`
